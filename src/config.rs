use vstd::prelude::*;
use vstd::string::StringExecFns;

use crate::error::Error;
use crate::util::{ANALOG_CHANNELS, PIN_SLOTS};

verus! {

/// The character of a decimal digit.
pub open spec fn digit_char(n: u8) -> char {
    if n == 0 {
        '0'
    } else if n == 1 {
        '1'
    } else if n == 2 {
        '2'
    } else if n == 3 {
        '3'
    } else if n == 4 {
        '4'
    } else if n == 5 {
        '5'
    } else if n == 6 {
        '6'
    } else if n == 7 {
        '7'
    } else if n == 8 {
        '8'
    } else {
        '9'
    }
}

fn digit_str(n: u8) -> (r: &'static str)
    requires
        n < 10,
    ensures
        r@ == seq![digit_char(n)],
{
    if n == 0 {
        proof { reveal_strlit("0"); }
        "0"
    } else if n == 1 {
        proof { reveal_strlit("1"); }
        "1"
    } else if n == 2 {
        proof { reveal_strlit("2"); }
        "2"
    } else if n == 3 {
        proof { reveal_strlit("3"); }
        "3"
    } else if n == 4 {
        proof { reveal_strlit("4"); }
        "4"
    } else if n == 5 {
        proof { reveal_strlit("5"); }
        "5"
    } else if n == 6 {
        proof { reveal_strlit("6"); }
        "6"
    } else if n == 7 {
        proof { reveal_strlit("7"); }
        "7"
    } else if n == 8 {
        proof { reveal_strlit("8"); }
        "8"
    } else {
        proof { reveal_strlit("9"); }
        "9"
    }
}

/// `prefix` + the digit of `n` + `suffix`.
fn numbered(prefix: &str, n: u8, suffix: &str) -> (r: String)
    requires
        n < 10,
    ensures
        r@ == prefix@ + seq![digit_char(n)] + suffix@,
{
    let mut s = String::from_str(prefix);
    s.append(digit_str(n));
    s.append(suffix);
    s
}

pub open spec fn digital_state_topic(n: u8) -> Seq<char> {
    "node/digital/"@ + seq![digit_char(n)] + "/state"@
}

pub open spec fn digital_command_topic(n: u8) -> Seq<char> {
    "node/digital/"@ + seq![digit_char(n)] + "/set"@
}

pub open spec fn analog_state_topic(n: u8) -> Seq<char> {
    "node/analog/"@ + seq![digit_char(n)] + "/state"@
}

/// A digital pin of the node, driven by the gateway or read from the node.
#[derive(Debug)]
pub enum DigitalPin {
    Output { number: u8, state: bool, state_topic: String, command_topic: String },
    Input { number: u8, state_topic: String },
}

/// Whether `p` is an output commanded through `topic`.
pub open spec fn is_output_for(p: DigitalPin, topic: Seq<char>) -> bool {
    match p {
        DigitalPin::Output { command_topic, .. } => command_topic@ == topic,
        DigitalPin::Input { .. } => false,
    }
}

/// `p` with its output state set to `s`; an input is left as it is.
pub open spec fn with_state(p: DigitalPin, s: bool) -> DigitalPin {
    match p {
        DigitalPin::Output { number, state_topic, command_topic, .. } => DigitalPin::Output {
            number,
            state: s,
            state_topic,
            command_topic,
        },
        DigitalPin::Input { .. } => p,
    }
}

/// Whether `b` agrees with `a` in all but the derived topics.
pub open spec fn same_setting(a: DigitalPin, b: DigitalPin) -> bool {
    match (a, b) {
        (
            DigitalPin::Output { number: n0, state: s0, .. },
            DigitalPin::Output { number: n1, state: s1, .. },
        ) => n0 == n1 && s0 == s1,
        (DigitalPin::Input { number: n0, .. }, DigitalPin::Input { number: n1, .. }) => n0 == n1,
        _ => false,
    }
}

/// An analog channel of the node; only enabled ones are reported.
#[derive(Debug)]
pub struct AnalogPin {
    pub number: u8,
    pub enabled: bool,
    pub state_topic: String,
}

impl DigitalPin {
    pub open spec fn spec_number(&self) -> u8 {
        match self {
            DigitalPin::Output { number, .. } => *number,
            DigitalPin::Input { number, .. } => *number,
        }
    }

    pub open spec fn spec_state_topic(&self) -> Seq<char> {
        match self {
            DigitalPin::Output { state_topic, .. } => state_topic@,
            DigitalPin::Input { state_topic, .. } => state_topic@,
        }
    }

    /// Whether the topics are those derived from the pin's number.
    pub open spec fn topics_derived(&self) -> bool {
        match self {
            DigitalPin::Output { number, state_topic, command_topic, .. } => state_topic@
                == digital_state_topic(*number) && command_topic@ == digital_command_topic(
                *number,
            ),
            DigitalPin::Input { number, state_topic } => state_topic@ == digital_state_topic(
                *number,
            ),
        }
    }

    /// The pin's bit in the direction mask: set for an output.
    pub open spec fn direction_bit(&self) -> u8 {
        match self {
            DigitalPin::Output { number, .. } => (1u8 << *number) as u8,
            DigitalPin::Input { .. } => 0u8,
        }
    }

    /// The pin's bit in the value mask: set for an output that is on.
    pub open spec fn value_bit(&self) -> u8 {
        match self {
            DigitalPin::Output { number, state, .. } => if *state {
                (1u8 << *number) as u8
            } else {
                0u8
            },
            DigitalPin::Input { .. } => 0u8,
        }
    }

    pub fn number(&self) -> (r: u8)
        ensures
            r == self.spec_number(),
    {
        match self {
            DigitalPin::Output { number, .. } => *number,
            DigitalPin::Input { number, .. } => *number,
        }
    }

    fn set_state(&mut self, new_state: bool)
        ensures
            *final(self) == with_state(*old(self), new_state),
    {
        match self {
            DigitalPin::Output { state, .. } => {
                *state = new_state;
            },
            DigitalPin::Input { .. } => {},
        }
    }

    /// The pin's contribution to the direction and value masks.
    pub fn as_tuple(&self) -> (r: (u8, u8))
        requires
            self.spec_number() < PIN_SLOTS,
        ensures
            r == (self.direction_bit(), self.value_bit()),
    {
        match self {
            DigitalPin::Output { number, state, .. } => {
                let bit: u8 = 1u8 << *number;
                if *state {
                    (bit, bit)
                } else {
                    (bit, 0)
                }
            },
            DigitalPin::Input { .. } => (0, 0),
        }
    }

    fn derive_topics(&mut self)
        requires
            old(self).spec_number() < 10,
        ensures
            final(self).topics_derived(),
            final(self).spec_number() == old(self).spec_number(),
            match (*old(self), *final(self)) {
                (DigitalPin::Output { state: s0, .. }, DigitalPin::Output { state: s1, .. }) => s0
                    == s1,
                (DigitalPin::Input { .. }, DigitalPin::Input { .. }) => true,
                _ => false,
            },
    {
        match self {
            DigitalPin::Output { number, state_topic, command_topic, .. } => {
                *state_topic = numbered("node/digital/", *number, "/state");
                *command_topic = numbered("node/digital/", *number, "/set");
            },
            DigitalPin::Input { number, state_topic } => {
                *state_topic = numbered("node/digital/", *number, "/state");
            },
        }
    }
}

impl AnalogPin {
    /// The pin's bit in the analog mask: set when enabled.
    pub open spec fn enabled_bit(&self) -> u8 {
        if self.enabled {
            (1u8 << self.number) as u8
        } else {
            0u8
        }
    }

    /// The pin's contribution to the analog mask.
    pub fn as_byte(&self) -> (r: u8)
        requires
            self.number < PIN_SLOTS,
        ensures
            r == self.enabled_bit(),
    {
        if self.enabled {
            1u8 << self.number
        } else {
            0
        }
    }

    fn derive_topic(&mut self)
        requires
            old(self).number < 10,
        ensures
            final(self).state_topic@ == analog_state_topic(old(self).number),
            final(self).number == old(self).number,
            final(self).enabled == old(self).enabled,
    {
        self.state_topic = numbered("node/analog/", self.number, "/state");
    }
}


/// Direction mask: bit `n` set when an output has number `n`.
pub open spec fn direction_mask(pins: Seq<(String, DigitalPin)>) -> u8
    decreases pins.len(),
{
    if pins.len() == 0 {
        0u8
    } else {
        direction_mask(pins.drop_last()) | pins.last().1.direction_bit()
    }
}

/// Value mask: bit `n` set when an output with number `n` is on.
pub open spec fn value_mask(pins: Seq<(String, DigitalPin)>) -> u8
    decreases pins.len(),
{
    if pins.len() == 0 {
        0u8
    } else {
        value_mask(pins.drop_last()) | pins.last().1.value_bit()
    }
}

/// Analog mask: bit `n` set when analog pin `n` is enabled.
pub open spec fn analog_mask(pins: Seq<(String, AnalogPin)>) -> u8
    decreases pins.len(),
{
    if pins.len() == 0 {
        0u8
    } else {
        analog_mask(pins.drop_last()) | pins.last().1.enabled_bit()
    }
}

/// Whether bit `n` of `b` is set.
pub open spec fn bit_set(b: u8, n: u8) -> bool {
    b & ((1u8 << n) as u8) != 0
}

/// Digital pins as a configuration may give them: numbers fit the masks, and
/// no two pins share a number or a name.
pub open spec fn digital_valid(pins: Seq<(String, DigitalPin)>) -> bool {
    &&& forall|i: int| 0 <= i < pins.len() ==> #[trigger] pins[i].1.spec_number() < PIN_SLOTS
    &&& forall|i: int, j: int|
        0 <= i < j < pins.len() ==> #[trigger] pins[i].1.spec_number()
            != #[trigger] pins[j].1.spec_number() && pins[i].0@ != pins[j].0@
}

/// Analog pins as a configuration may give them: numbers name a reported channel,
/// and no two pins share a number or a name.
pub open spec fn analog_valid(pins: Seq<(String, AnalogPin)>) -> bool {
    &&& forall|i: int| 0 <= i < pins.len() ==> #[trigger] pins[i].1.number < ANALOG_CHANNELS
    &&& forall|i: int, j: int|
        0 <= i < j < pins.len() ==> #[trigger] pins[i].1.number != #[trigger] pins[j].1.number
            && pins[i].0@ != pins[j].0@
}

/// The five-byte downlink configuration: sleep time big-endian, then the direction,
/// value and analog masks.
pub open spec fn downlink(sleep_time: u16, digital: Seq<(String, DigitalPin)>, analog: Seq<(String, AnalogPin)>) -> Seq<u8> {
    seq![
        (sleep_time / 256) as u8,
        (sleep_time % 256) as u8,
        direction_mask(digital),
        value_mask(digital),
        analog_mask(analog),
    ]
}

/// Why a pin list is refused, if it is.
pub open spec fn pin_error_allowed(
    e: Error,
    digital: Seq<(String, DigitalPin)>,
    analog: Seq<(String, AnalogPin)>,
) -> bool {
    match e {
        Error::PinNumberOutOfRange { number } => (exists|i: int|
            0 <= i < digital.len() && #[trigger] digital[i].1.spec_number() == number && number
                >= PIN_SLOTS) || (exists|i: int|
            0 <= i < analog.len() && #[trigger] analog[i].1.number == number && number
                >= ANALOG_CHANNELS),
        Error::DuplicatePinNumber { number } => (exists|i: int, j: int|
            0 <= i < j < digital.len() && #[trigger] digital[i].1.spec_number() == number
                && #[trigger] digital[j].1.spec_number() == number) || (exists|i: int, j: int|
            0 <= i < j < analog.len() && #[trigger] analog[i].1.number == number
                && #[trigger] analog[j].1.number == number),
        Error::DuplicatePinName => (exists|i: int, j: int|
            0 <= i < j < digital.len() && #[trigger] digital[i].0@ == #[trigger] digital[j].0@)
            || (exists|i: int, j: int|
            0 <= i < j < analog.len() && #[trigger] analog[i].0@ == #[trigger] analog[j].0@),
        _ => false,
    }
}

/// Whether some output of `node` is commanded through `topic`.
pub open spec fn has_output(node: Node, topic: Seq<char>) -> bool {
    exists|i: int|
        0 <= i < node.spec_digital().len() && is_output_for(#[trigger] node.spec_digital()[i].1, topic)
}

/// `after` is `before` with the first output commanded through `topic` set to `state`,
/// and marked as changed.
pub open spec fn output_set(before: Node, after: Node, topic: Seq<char>, state: bool) -> bool {
    &&& after.wf()
    &&& after.spec_dirty()
    &&& after.spec_sleep_time() == before.spec_sleep_time()
    &&& after.spec_addr() == before.spec_addr()
    &&& after.spec_analog() == before.spec_analog()
    &&& exists|i: int|
        0 <= i < before.spec_digital().len() && is_output_for(#[trigger] before.spec_digital()[i].1, topic)
            && (forall|j: int|
            0 <= j < i ==> !is_output_for(#[trigger] before.spec_digital()[j].1, topic))
            && after.spec_digital() == before.spec_digital().update(
            i,
            (before.spec_digital()[i].0, with_state(before.spec_digital()[i].1, state)),
        )
}

/// The remote node's configuration, as the gateway pushes it.
#[derive(Debug)]
pub struct Node {
    sleep_time: u16,
    node_addr: u8,
    digital: Vec<(String, DigitalPin)>,
    analog: Vec<(String, AnalogPin)>,
    config_dirty: bool,
}

fn check_digital(pins: &Vec<(String, DigitalPin)>) -> (r: Result<(), Error>)
    ensures
        r is Ok <==> digital_valid(pins@),
        r matches Err(e) ==> pin_error_allowed(e, pins@, Seq::empty()),
{
    let mut i: usize = 0;
    while i < pins.len()
        invariant
            i <= pins@.len(),
            digital_valid(pins@.subrange(0, i as int)),
        decreases pins@.len() - i,
    {
        let n = pins[i].1.number();
        if n >= PIN_SLOTS {
            return Err(Error::PinNumberOutOfRange { number: n });
        }
        let mut j: usize = 0;
        while j < i
            invariant
                j <= i < pins@.len(),
                n == pins@[i as int].1.spec_number(),
                forall|k: int| 0 <= k < j ==> #[trigger] pins@[k].1.spec_number() != n,
                forall|k: int| 0 <= k < j ==> #[trigger] pins@[k].0@ != pins@[i as int].0@,
            decreases i - j,
        {
            if pins[j].1.number() == n {
                assert(pins@[j as int].1.spec_number() == n);
                return Err(Error::DuplicatePinNumber { number: n });
            }
            if pins[j].0 == pins[i].0 {
                return Err(Error::DuplicatePinName);
            }
            assert(pins@[j as int].1.spec_number() != n && pins@[j as int].0@ != pins@[i as int].0@);
            j = j + 1;
        }
        proof {
            let s = pins@.subrange(0, i as int + 1);
            assert forall|a: int, b: int| 0 <= a < b < s.len() implies #[trigger] s[a].1.spec_number()
                != #[trigger] s[b].1.spec_number() && s[a].0@ != s[b].0@ by {
                if b < i {
                    assert(s[a] == pins@.subrange(0, i as int)[a]);
                    assert(s[b] == pins@.subrange(0, i as int)[b]);
                }
            }
            assert forall|a: int| 0 <= a < s.len() implies #[trigger] s[a].1.spec_number() < PIN_SLOTS by {
                if a < i {
                    assert(s[a] == pins@.subrange(0, i as int)[a]);
                }
            }
        }
        i = i + 1;
    }
    assert(pins@.subrange(0, pins@.len() as int) == pins@);
    Ok(())
}

fn check_analog(pins: &Vec<(String, AnalogPin)>) -> (r: Result<(), Error>)
    ensures
        r is Ok <==> analog_valid(pins@),
        r matches Err(e) ==> pin_error_allowed(e, Seq::empty(), pins@),
{
    let mut i: usize = 0;
    while i < pins.len()
        invariant
            i <= pins@.len(),
            analog_valid(pins@.subrange(0, i as int)),
        decreases pins@.len() - i,
    {
        let n = pins[i].1.number;
        if n >= ANALOG_CHANNELS {
            return Err(Error::PinNumberOutOfRange { number: n });
        }
        let mut j: usize = 0;
        while j < i
            invariant
                j <= i < pins@.len(),
                n == pins@[i as int].1.number,
                forall|k: int| 0 <= k < j ==> #[trigger] pins@[k].1.number != n,
                forall|k: int| 0 <= k < j ==> #[trigger] pins@[k].0@ != pins@[i as int].0@,
            decreases i - j,
        {
            if pins[j].1.number == n {
                assert(pins@[j as int].1.number == n);
                return Err(Error::DuplicatePinNumber { number: n });
            }
            if pins[j].0 == pins[i].0 {
                return Err(Error::DuplicatePinName);
            }
            assert(pins@[j as int].1.number != n && pins@[j as int].0@ != pins@[i as int].0@);
            j = j + 1;
        }
        proof {
            let s = pins@.subrange(0, i as int + 1);
            assert forall|a: int, b: int| 0 <= a < b < s.len() implies #[trigger] s[a].1.number
                != #[trigger] s[b].1.number && s[a].0@ != s[b].0@ by {
                if b < i {
                    assert(s[a] == pins@.subrange(0, i as int)[a]);
                    assert(s[b] == pins@.subrange(0, i as int)[b]);
                }
            }
            assert forall|a: int| 0 <= a < s.len() implies #[trigger] s[a].1.number < ANALOG_CHANNELS by {
                if a < i {
                    assert(s[a] == pins@.subrange(0, i as int)[a]);
                }
            }
        }
        i = i + 1;
    }
    assert(pins@.subrange(0, pins@.len() as int) == pins@);
    Ok(())
}


impl Node {
    pub closed spec fn spec_sleep_time(&self) -> u16 {
        self.sleep_time
    }

    pub closed spec fn spec_addr(&self) -> u8 {
        self.node_addr
    }

    pub closed spec fn spec_digital(&self) -> Seq<(String, DigitalPin)> {
        self.digital@
    }

    pub closed spec fn spec_analog(&self) -> Seq<(String, AnalogPin)> {
        self.analog@
    }

    pub closed spec fn spec_dirty(&self) -> bool {
        self.config_dirty
    }

    /// Valid pins whose topics are those derived from their numbers.
    pub open spec fn wf(&self) -> bool {
        &&& digital_valid(self.spec_digital())
        &&& analog_valid(self.spec_analog())
        &&& forall|i: int|
            0 <= i < self.spec_digital().len() ==> (#[trigger] self.spec_digital()[i]).1.topics_derived()
        &&& forall|i: int|
            0 <= i < self.spec_analog().len() ==> (#[trigger] self.spec_analog()[i]).1.state_topic@
                == analog_state_topic(self.spec_analog()[i].1.number)
    }

    /// The bytes that `to_bytes` gives for this configuration.
    pub open spec fn spec_downlink(&self) -> Seq<u8> {
        downlink(self.spec_sleep_time(), self.spec_digital(), self.spec_analog())
    }

    /// Builds a node from loaded settings: refuses pin numbers that do not fit, pins
    /// that share a number or a name; derives each pin's topics from its number, and
    /// marks the configuration as not yet pushed.
    pub fn new(
        sleep_time: u16,
        node_addr: u8,
        digital: Vec<(String, DigitalPin)>,
        analog: Vec<(String, AnalogPin)>,
    ) -> (r: Result<Node, Error>)
        ensures
            r is Ok <==> digital_valid(digital@) && analog_valid(analog@),
            r matches Err(e) ==> pin_error_allowed(e, digital@, analog@),
            r matches Ok(node) ==> {
                &&& node.wf()
                &&& node.spec_sleep_time() == sleep_time
                &&& node.spec_addr() == node_addr
                &&& node.spec_dirty()
                &&& node.spec_digital().len() == digital@.len()
                &&& forall|i: int|
                    0 <= i < digital@.len() ==> (#[trigger] node.spec_digital()[i]).0 == digital@[i].0
                        && same_setting(digital@[i].1, node.spec_digital()[i].1)
                &&& node.spec_analog().len() == analog@.len()
                &&& forall|i: int|
                    0 <= i < analog@.len() ==> (#[trigger] node.spec_analog()[i]).0 == analog@[i].0
                        && node.spec_analog()[i].1.number == analog@[i].1.number
                        && node.spec_analog()[i].1.enabled == analog@[i].1.enabled
            },
    {
        match check_digital(&digital) {
            Err(e) => {
                return Err(e);
            },
            Ok(()) => {},
        }
        match check_analog(&analog) {
            Err(e) => {
                return Err(e);
            },
            Ok(()) => {},
        }
        let mut node = Node { sleep_time, node_addr, digital, analog, config_dirty: true };
        node.init_mqtt_topic();
        Ok(node)
    }

    pub fn addr(&self) -> (r: u8)
        ensures
            r == self.spec_addr(),
    {
        self.node_addr
    }

    pub fn is_config_dirty(&self) -> (r: bool)
        ensures
            r == self.spec_dirty(),
    {
        self.config_dirty
    }

    pub fn update_config_dirty(&mut self, dirty: bool)
        ensures
            final(self).spec_dirty() == dirty,
            final(self).spec_sleep_time() == old(self).spec_sleep_time(),
            final(self).spec_addr() == old(self).spec_addr(),
            final(self).spec_digital() == old(self).spec_digital(),
            final(self).spec_analog() == old(self).spec_analog(),
            final(self).wf() == old(self).wf(),
    {
        self.config_dirty = dirty;
    }

    pub fn digital(&self) -> (r: &Vec<(String, DigitalPin)>)
        ensures
            r@ == self.spec_digital(),
    {
        &self.digital
    }

    pub fn analog(&self) -> (r: &Vec<(String, AnalogPin)>)
        ensures
            r@ == self.spec_analog(),
    {
        &self.analog
    }

    /// Sets the state of the first output commanded through `topic` and marks the
    /// configuration as changed; with no such output, fails and changes nothing.
    pub fn update_output(&mut self, topic: &str, new_state: bool) -> (r: Result<(), Error>)
        requires
            old(self).wf(),
        ensures
            final(self).wf(),
            final(self).spec_sleep_time() == old(self).spec_sleep_time(),
            final(self).spec_addr() == old(self).spec_addr(),
            final(self).spec_analog() == old(self).spec_analog(),
            r is Ok <==> has_output(*old(self), topic@),
            r is Ok ==> output_set(*old(self), *final(self), topic@, new_state),
            r is Err ==> r == Err::<(), Error>(Error::OptionError("Cannot find pin to update."))
                && *final(self) == *old(self),
    {
        let wanted = String::from_str(topic);
        let ghost d0 = self.spec_digital();
        assert(d0 == self.digital@);
        let mut i: usize = 0;
        while i < self.digital.len()
            invariant
                i <= self.digital@.len(),
                wanted@ == topic@,
                *self == *old(self),
                self.wf(),
                d0 == self.digital@,
                d0 == self.spec_digital(),
                forall|j: int| 0 <= j < i ==> !is_output_for(#[trigger] d0[j].1, topic@),
            decreases self.digital@.len() - i,
        {
            let found = match &self.digital[i].1 {
                DigitalPin::Output { command_topic, .. } => *command_topic == wanted,
                DigitalPin::Input { .. } => false,
            };
            if found {
                assert(is_output_for(d0[i as int].1, topic@));
                self.digital[i].1.set_state(new_state);
                assert(self.digital@ =~= d0.update(
                    i as int,
                    (d0[i as int].0, with_state(d0[i as int].1, new_state)),
                ));
                assert forall|k: int|
                    0 <= k < self.digital@.len() implies (#[trigger] self.digital@[k]).1.topics_derived() by {
                    assert(d0[k].1.topics_derived());
                }
                assert forall|a: int, b: int|
                    0 <= a < b < self.digital@.len() implies #[trigger] self.digital@[a].1.spec_number()
                    != #[trigger] self.digital@[b].1.spec_number() && self.digital@[a].0@
                    != self.digital@[b].0@ by {
                    assert(d0[a].1.spec_number() != d0[b].1.spec_number());
                }
                assert forall|a: int|
                    0 <= a < self.digital@.len() implies #[trigger] self.digital@[a].1.spec_number()
                    < PIN_SLOTS by {
                    assert(d0[a].1.spec_number() < PIN_SLOTS);
                }
                self.config_dirty = true;
                return Ok(());
            }
            i = i + 1;
        }
        Err(Error::new_option("Cannot find pin to update."))
    }

    /// The five-byte downlink encoding of the configuration.
    pub fn to_bytes(&self) -> (r: Vec<u8>)
        requires
            self.wf(),
        ensures
            r@ == self.spec_downlink(),
            r@.len() == 5,
    {
        let mut bytes: Vec<u8> = Vec::new();
        bytes.push((self.sleep_time / 256) as u8);
        bytes.push((self.sleep_time % 256) as u8);
        let mut digital_direction: u8 = 0;
        let mut digital_value: u8 = 0;
        let mut i: usize = 0;
        while i < self.digital.len()
            invariant
                self.wf(),
                i <= self.digital@.len(),
                digital_direction == direction_mask(self.digital@.subrange(0, i as int)),
                digital_value == value_mask(self.digital@.subrange(0, i as int)),
            decreases self.digital@.len() - i,
        {
            assert(self.digital@[i as int].1.spec_number() < PIN_SLOTS);
            let (pin_direction, pin_value) = self.digital[i].1.as_tuple();
            assert(self.digital@.subrange(0, i as int + 1).drop_last() =~= self.digital@.subrange(0, i as int));
            digital_direction = digital_direction | pin_direction;
            digital_value = digital_value | pin_value;
            i = i + 1;
        }
        assert(self.digital@.subrange(0, self.digital@.len() as int) =~= self.digital@);
        bytes.push(digital_direction);
        bytes.push(digital_value);
        let mut analog: u8 = 0;
        let mut i: usize = 0;
        while i < self.analog.len()
            invariant
                self.wf(),
                i <= self.analog@.len(),
                analog == analog_mask(self.analog@.subrange(0, i as int)),
            decreases self.analog@.len() - i,
        {
            assert(self.analog@[i as int].1.number < ANALOG_CHANNELS);
            let bit = self.analog[i].1.as_byte();
            assert(self.analog@.subrange(0, i as int + 1).drop_last() =~= self.analog@.subrange(0, i as int));
            analog = analog | bit;
            i = i + 1;
        }
        assert(self.analog@.subrange(0, self.analog@.len() as int) =~= self.analog@);
        bytes.push(analog);
        assert(bytes@ =~= self.spec_downlink());
        bytes
    }

    /// Sets every pin's topics from its number.
    fn init_mqtt_topic(&mut self)
        requires
            digital_valid(old(self).digital@),
            analog_valid(old(self).analog@),
        ensures
            final(self).wf(),
            final(self).sleep_time == old(self).sleep_time,
            final(self).node_addr == old(self).node_addr,
            final(self).config_dirty == old(self).config_dirty,
            final(self).digital@.len() == old(self).digital@.len(),
            forall|i: int|
                0 <= i < old(self).digital@.len() ==> (#[trigger] final(self).digital@[i]).0
                    == old(self).digital@[i].0 && same_setting(
                    old(self).digital@[i].1,
                    final(self).digital@[i].1,
                ),
            final(self).analog@.len() == old(self).analog@.len(),
            forall|i: int|
                0 <= i < old(self).analog@.len() ==> (#[trigger] final(self).analog@[i]).0
                    == old(self).analog@[i].0 && final(self).analog@[i].1.number == old(
                    self,
                ).analog@[i].1.number && final(self).analog@[i].1.enabled == old(
                    self,
                ).analog@[i].1.enabled,
    {
        let ghost d0 = self.digital@;
        let mut i: usize = 0;
        while i < self.digital.len()
            invariant
                i <= self.digital@.len() == d0.len(),
                digital_valid(d0),
                self.sleep_time == old(self).sleep_time,
                self.node_addr == old(self).node_addr,
                self.config_dirty == old(self).config_dirty,
                self.analog@ == old(self).analog@,
                d0 == old(self).digital@,
                forall|k: int|
                    0 <= k < d0.len() ==> (#[trigger] self.digital@[k]).0 == d0[k].0
                        && same_setting(d0[k].1, self.digital@[k].1) && self.digital@[k].1.spec_number()
                        == d0[k].1.spec_number(),
                forall|k: int| 0 <= k < i ==> (#[trigger] self.digital@[k]).1.topics_derived(),
            decreases d0.len() - i,
        {
            assert(d0[i as int].1.spec_number() < PIN_SLOTS);
            self.digital[i].1.derive_topics();
            i = i + 1;
        }
        assert forall|a: int, b: int|
            0 <= a < b < self.digital@.len() implies #[trigger] self.digital@[a].1.spec_number()
            != #[trigger] self.digital@[b].1.spec_number() && self.digital@[a].0@
            != self.digital@[b].0@ by {
            assert(d0[a].1.spec_number() != d0[b].1.spec_number());
        }
        assert forall|a: int|
            0 <= a < self.digital@.len() implies #[trigger] self.digital@[a].1.spec_number()
            < PIN_SLOTS by {
            assert(d0[a].1.spec_number() < PIN_SLOTS);
        }
        let ghost a0 = self.analog@;
        let ghost d1 = self.digital@;
        let mut i: usize = 0;
        while i < self.analog.len()
            invariant
                i <= self.analog@.len() == a0.len(),
                analog_valid(a0),
                a0 == old(self).analog@,
                self.sleep_time == old(self).sleep_time,
                self.node_addr == old(self).node_addr,
                self.config_dirty == old(self).config_dirty,
                self.digital@ == d1,
                forall|k: int|
                    0 <= k < a0.len() ==> (#[trigger] self.analog@[k]).0 == a0[k].0
                        && self.analog@[k].1.number == a0[k].1.number && self.analog@[k].1.enabled
                        == a0[k].1.enabled,
                forall|k: int|
                    0 <= k < i ==> (#[trigger] self.analog@[k]).1.state_topic@ == analog_state_topic(
                        self.analog@[k].1.number,
                    ),
                self.digital@.len() == d0.len(),
                digital_valid(self.digital@),
                forall|k: int|
                    0 <= k < d0.len() ==> (#[trigger] self.digital@[k]).0 == d0[k].0
                        && same_setting(d0[k].1, self.digital@[k].1),
                forall|k: int|
                    0 <= k < d0.len() ==> (#[trigger] self.digital@[k]).1.topics_derived(),
            decreases a0.len() - i,
        {
            assert(a0[i as int].1.number < ANALOG_CHANNELS);
            self.analog[i].1.derive_topic();
            i = i + 1;
        }
        assert forall|a: int, b: int|
            0 <= a < b < self.analog@.len() implies #[trigger] self.analog@[a].1.number
            != #[trigger] self.analog@[b].1.number && self.analog@[a].0@ != self.analog@[b].0@ by {
            assert(a0[a].1.number != a0[b].1.number);
        }
        assert forall|a: int| 0 <= a < self.analog@.len() implies #[trigger] self.analog@[a].1.number
            < ANALOG_CHANNELS by {
            assert(a0[a].1.number < ANALOG_CHANNELS);
        }
    }
}


proof fn lemma_or_bit(a: u8, b: u8, n: u8)
    requires
        n < 8,
    ensures
        ((a | b) & ((1u8 << n) as u8) != 0) == ((a & ((1u8 << n) as u8) != 0) || (b & ((1u8
            << n) as u8) != 0)),
{
    assert(((a | b) & ((1u8 << n) as u8) != 0) == ((a & ((1u8 << n) as u8) != 0) || (b & ((1u8
        << n) as u8) != 0))) by (bit_vector)
        requires
            n < 8,
    ;
}

proof fn lemma_single_bit(k: u8, n: u8)
    requires
        k < 8,
        n < 8,
    ensures
        (((1u8 << k) as u8) & ((1u8 << n) as u8) != 0) == (k == n),
        (0u8 & ((1u8 << n) as u8)) == 0,
{
    assert((((1u8 << k) as u8) & ((1u8 << n) as u8) != 0) == (k == n)) by (bit_vector)
        requires
            k < 8,
            n < 8,
    ;
    assert((0u8 & ((1u8 << n) as u8)) == 0) by (bit_vector);
}

pub open spec fn is_on(p: DigitalPin) -> bool {
    match p {
        DigitalPin::Output { state, .. } => state,
        DigitalPin::Input { .. } => false,
    }
}

proof fn lemma_direction_mask_bit(pins: Seq<(String, DigitalPin)>, n: u8)
    requires
        n < PIN_SLOTS,
        forall|i: int| 0 <= i < pins.len() ==> #[trigger] pins[i].1.spec_number() < PIN_SLOTS,
    ensures
        bit_set(direction_mask(pins), n) <==> exists|i: int|
            0 <= i < pins.len() && #[trigger] pins[i].1 is Output && pins[i].1.spec_number() == n,
        bit_set(value_mask(pins), n) <==> exists|i: int|
            0 <= i < pins.len() && is_on(#[trigger] pins[i].1) && pins[i].1.spec_number() == n,
    decreases pins.len(),
{
    lemma_single_bit(0, n);
    if pins.len() > 0 {
        let init = pins.drop_last();
        let last = pins.last();
        assert forall|i: int| 0 <= i < init.len() implies #[trigger] init[i].1.spec_number()
            < PIN_SLOTS by {
            assert(init[i] == pins[i]);
        }
        lemma_direction_mask_bit(init, n);
        assert(pins[pins.len() - 1] == last);
        assert(last.1.spec_number() < PIN_SLOTS);
        lemma_single_bit(last.1.spec_number(), n);
        lemma_or_bit(direction_mask(init), last.1.direction_bit(), n);
        lemma_or_bit(value_mask(init), last.1.value_bit(), n);
        if exists|i: int|
            0 <= i < pins.len() && #[trigger] pins[i].1 is Output && pins[i].1.spec_number() == n {
            let i = choose|i: int|
                0 <= i < pins.len() && #[trigger] pins[i].1 is Output && pins[i].1.spec_number()
                    == n;
            if i < init.len() {
                assert(init[i] == pins[i]);
            }
        }
        if exists|i: int|
            0 <= i < init.len() && #[trigger] init[i].1 is Output && init[i].1.spec_number() == n {
            let i = choose|i: int|
                0 <= i < init.len() && #[trigger] init[i].1 is Output && init[i].1.spec_number()
                    == n;
            assert(init[i] == pins[i]);
        }
        if exists|i: int|
            0 <= i < pins.len() && is_on(#[trigger] pins[i].1) && pins[i].1.spec_number() == n {
            let i = choose|i: int|
                0 <= i < pins.len() && is_on(#[trigger] pins[i].1) && pins[i].1.spec_number() == n;
            if i < init.len() {
                assert(init[i] == pins[i]);
            }
        }
        if exists|i: int|
            0 <= i < init.len() && is_on(#[trigger] init[i].1) && init[i].1.spec_number() == n {
            let i = choose|i: int|
                0 <= i < init.len() && is_on(#[trigger] init[i].1) && init[i].1.spec_number() == n;
            assert(init[i] == pins[i]);
        }
    }
}

proof fn lemma_analog_mask_bit(pins: Seq<(String, AnalogPin)>, n: u8)
    requires
        n < PIN_SLOTS,
        forall|i: int| 0 <= i < pins.len() ==> #[trigger] pins[i].1.number < PIN_SLOTS,
    ensures
        bit_set(analog_mask(pins), n) <==> exists|i: int|
            0 <= i < pins.len() && (#[trigger] pins[i].1).enabled && pins[i].1.number == n,
    decreases pins.len(),
{
    lemma_single_bit(0, n);
    if pins.len() > 0 {
        let init = pins.drop_last();
        let last = pins.last();
        assert forall|i: int| 0 <= i < init.len() implies #[trigger] init[i].1.number
            < PIN_SLOTS by {
            assert(init[i] == pins[i]);
        }
        lemma_analog_mask_bit(init, n);
        assert(pins[pins.len() - 1] == last);
        lemma_single_bit(last.1.number, n);
        lemma_or_bit(analog_mask(init), last.1.enabled_bit(), n);
        if exists|i: int|
            0 <= i < pins.len() && (#[trigger] pins[i].1).enabled && pins[i].1.number == n {
            let i = choose|i: int|
                0 <= i < pins.len() && (#[trigger] pins[i].1).enabled && pins[i].1.number == n;
            if i < init.len() {
                assert(init[i] == pins[i]);
            }
        }
        if exists|i: int|
            0 <= i < init.len() && (#[trigger] init[i].1).enabled && init[i].1.number == n {
            let i = choose|i: int|
                0 <= i < init.len() && (#[trigger] init[i].1).enabled && init[i].1.number == n;
            assert(init[i] == pins[i]);
        }
    }
}

/// The downlink encoding is five bytes; bit `n` of the third is set exactly when an
/// output pin has number `n`, bit `n` of the fourth exactly when such an output is on,
/// and bit `n` of the fifth exactly when the analog pin with number `n` is enabled.
pub proof fn lemma_downlink_bits(node: &Node, n: u8)
    requires
        node.wf(),
        n < PIN_SLOTS,
    ensures
        node.spec_downlink().len() == 5,
        bit_set(node.spec_downlink()[2], n) <==> exists|i: int|
            0 <= i < node.spec_digital().len() && #[trigger] node.spec_digital()[i].1 is Output
                && node.spec_digital()[i].1.spec_number() == n,
        bit_set(node.spec_downlink()[3], n) <==> exists|i: int|
            0 <= i < node.spec_digital().len() && is_on(#[trigger] node.spec_digital()[i].1)
                && node.spec_digital()[i].1.spec_number() == n,
        bit_set(node.spec_downlink()[4], n) <==> exists|i: int|
            0 <= i < node.spec_analog().len() && (#[trigger] node.spec_analog()[i].1).enabled
                && node.spec_analog()[i].1.number == n,
{
    let d = node.spec_digital();
    let a = node.spec_analog();
    lemma_direction_mask_bit(d, n);
    assert forall|i: int| 0 <= i < a.len() implies #[trigger] a[i].1.number < PIN_SLOTS by {
        assert(a[i].1.number < ANALOG_CHANNELS);
    }
    lemma_analog_mask_bit(a, n);
}


/// The gateway's settings and the node it serves.
#[derive(Debug)]
pub struct Config {
    gateway_addr: u8,
    network_id: u8,
    node: Node,
}

impl Config {
    pub closed spec fn spec_gateway_addr(&self) -> u8 {
        self.gateway_addr
    }

    pub closed spec fn spec_network_id(&self) -> u8 {
        self.network_id
    }

    pub closed spec fn spec_node(&self) -> Node {
        self.node
    }

    pub fn new(gateway_addr: u8, network_id: u8, node: Node) -> (r: Config)
        ensures
            r.spec_gateway_addr() == gateway_addr,
            r.spec_network_id() == network_id,
            r.spec_node() == node,
    {
        Config { gateway_addr, network_id, node }
    }

    pub fn gateway_addr(&self) -> (r: u8)
        ensures
            r == self.spec_gateway_addr(),
    {
        self.gateway_addr
    }

    pub fn network_id(&self) -> (r: u8)
        ensures
            r == self.spec_network_id(),
    {
        self.network_id
    }

    pub fn node(&self) -> (r: &Node)
        ensures
            *r == self.spec_node(),
    {
        &self.node
    }

    pub fn node_mut(&mut self) -> (r: &mut Node)
        ensures
            *r == old(self).spec_node(),
            final(self).spec_node() == *final(r),
            final(self).spec_gateway_addr() == old(self).spec_gateway_addr(),
            final(self).spec_network_id() == old(self).spec_network_id(),
    {
        &mut self.node
    }
}


/// How a pin or sensor is announced on the control plane.
#[derive(Debug)]
pub enum Discovery {
    Switch {
        name: String,
        state_topic: String,
        command_topic: String,
        payload_on: String,
        payload_off: String,
    },
    BinarySensor { name: String, state_topic: String, payload_on: String, payload_off: String },
    Sensor {
        name: String,
        state_topic: String,
        unit_of_measurement: Option<String>,
        value_template: Option<String>,
    },
}

/// The text content of a `Discovery`.
pub enum DiscoveryView {
    Switch {
        name: Seq<char>,
        state_topic: Seq<char>,
        command_topic: Seq<char>,
        payload_on: Seq<char>,
        payload_off: Seq<char>,
    },
    BinarySensor {
        name: Seq<char>,
        state_topic: Seq<char>,
        payload_on: Seq<char>,
        payload_off: Seq<char>,
    },
    Sensor {
        name: Seq<char>,
        state_topic: Seq<char>,
        unit_of_measurement: Option<Seq<char>>,
        value_template: Option<Seq<char>>,
    },
}

pub open spec fn opt_view(o: Option<String>) -> Option<Seq<char>> {
    match o {
        Some(s) => Some(s@),
        None => None,
    }
}

impl View for Discovery {
    type V = DiscoveryView;

    open spec fn view(&self) -> DiscoveryView {
        match self {
            Discovery::Switch { name, state_topic, command_topic, payload_on, payload_off } =>
                DiscoveryView::Switch {
                name: name@,
                state_topic: state_topic@,
                command_topic: command_topic@,
                payload_on: payload_on@,
                payload_off: payload_off@,
            },
            Discovery::BinarySensor { name, state_topic, payload_on, payload_off } =>
                DiscoveryView::BinarySensor {
                name: name@,
                state_topic: state_topic@,
                payload_on: payload_on@,
                payload_off: payload_off@,
            },
            Discovery::Sensor { name, state_topic, unit_of_measurement, value_template } =>
                DiscoveryView::Sensor {
                name: name@,
                state_topic: state_topic@,
                unit_of_measurement: opt_view(*unit_of_measurement),
                value_template: opt_view(*value_template),
            },
        }
    }
}

/// What the control plane learns of a pin.
pub trait Pin {
    spec fn spec_pin_number(&self) -> u8;

    spec fn spec_pin_topic(&self) -> Seq<char>;

    spec fn spec_discovery_topic(&self) -> Seq<char>;

    spec fn spec_as_discovery(&self, name: Seq<char>) -> DiscoveryView;

    /// The announcement of the pin under `name`.
    fn as_discovery(&self, name: &str) -> (r: Discovery)
        ensures
            r@ == self.spec_as_discovery(name@),
    ;

    /// The topic under which the pin is announced.
    fn discovery_topic(&self) -> (r: String)
        requires
            self.spec_pin_number() < 10,
        ensures
            r@ == self.spec_discovery_topic(),
    ;

    /// The topic that the pin's state is published to, and the pin's number.
    fn topic_number_tuple(&self) -> (r: (&str, u8))
        ensures
            r.0@ == self.spec_pin_topic(),
            r.1 == self.spec_pin_number(),
    ;
}

fn owned(s: &str) -> (r: String)
    ensures
        r@ == s@,
{
    String::from_str(s)
}

impl Pin for DigitalPin {
    open spec fn spec_pin_number(&self) -> u8 {
        self.spec_number()
    }

    open spec fn spec_pin_topic(&self) -> Seq<char> {
        self.spec_state_topic()
    }

    open spec fn spec_discovery_topic(&self) -> Seq<char> {
        match self {
            DigitalPin::Output { number, .. } => "homeassistant/switch/node/digital_"@ + seq![
                digit_char(*number),
            ] + "/config"@,
            DigitalPin::Input { number, .. } => "homeassistant/binary_sensor/node/digital_"@
                + seq![digit_char(*number)] + "/config"@,
        }
    }

    open spec fn spec_as_discovery(&self, name: Seq<char>) -> DiscoveryView {
        match self {
            DigitalPin::Output { state_topic, command_topic, .. } => DiscoveryView::Switch {
                name,
                state_topic: state_topic@,
                command_topic: command_topic@,
                payload_on: "1"@,
                payload_off: "0"@,
            },
            DigitalPin::Input { state_topic, .. } => DiscoveryView::BinarySensor {
                name,
                state_topic: state_topic@,
                payload_on: "1"@,
                payload_off: "0"@,
            },
        }
    }

    fn as_discovery(&self, name: &str) -> (r: Discovery) {
        match self {
            DigitalPin::Output { state_topic, command_topic, .. } => Discovery::Switch {
                name: owned(name),
                state_topic: state_topic.clone(),
                command_topic: command_topic.clone(),
                payload_on: owned("1"),
                payload_off: owned("0"),
            },
            DigitalPin::Input { state_topic, .. } => Discovery::BinarySensor {
                name: owned(name),
                state_topic: state_topic.clone(),
                payload_on: owned("1"),
                payload_off: owned("0"),
            },
        }
    }

    fn discovery_topic(&self) -> (r: String) {
        match self {
            DigitalPin::Output { number, .. } => numbered(
                "homeassistant/switch/node/digital_",
                *number,
                "/config",
            ),
            DigitalPin::Input { number, .. } => numbered(
                "homeassistant/binary_sensor/node/digital_",
                *number,
                "/config",
            ),
        }
    }

    fn topic_number_tuple(&self) -> (r: (&str, u8)) {
        match self {
            DigitalPin::Output { number, state_topic, .. } => (state_topic.as_str(), *number),
            DigitalPin::Input { number, state_topic } => (state_topic.as_str(), *number),
        }
    }
}

impl Pin for AnalogPin {
    open spec fn spec_pin_number(&self) -> u8 {
        self.number
    }

    open spec fn spec_pin_topic(&self) -> Seq<char> {
        self.state_topic@
    }

    open spec fn spec_discovery_topic(&self) -> Seq<char> {
        "homeassistant/sensor/node/analog_"@ + seq![digit_char(self.number)] + "/config"@
    }

    open spec fn spec_as_discovery(&self, name: Seq<char>) -> DiscoveryView {
        DiscoveryView::Sensor {
            name,
            state_topic: self.state_topic@,
            unit_of_measurement: None,
            value_template: None,
        }
    }

    fn as_discovery(&self, name: &str) -> (r: Discovery) {
        Discovery::Sensor {
            name: owned(name),
            state_topic: self.state_topic.clone(),
            unit_of_measurement: None,
            value_template: None,
        }
    }

    fn discovery_topic(&self) -> (r: String) {
        numbered("homeassistant/sensor/node/analog_", self.number, "/config")
    }

    fn topic_number_tuple(&self) -> (r: (&str, u8)) {
        (self.state_topic.as_str(), self.number)
    }
}


pub open spec fn entry_view(e: (String, Discovery)) -> (Seq<char>, DiscoveryView) {
    (e.0@, e.1@)
}

pub open spec fn entries_view(s: Seq<(String, Discovery)>) -> Seq<(Seq<char>, DiscoveryView)> {
    s.map_values(|e: (String, Discovery)| entry_view(e))
}

pub open spec fn sensor_view(
    name: Seq<char>,
    state_topic: Seq<char>,
    unit: Seq<char>,
    template: Seq<char>,
) -> DiscoveryView {
    DiscoveryView::Sensor {
        name,
        state_topic,
        unit_of_measurement: Some(unit),
        value_template: Some(template),
    }
}

pub open spec fn battery_state_topic() -> Seq<char> {
    "node/analog/bat/state"@
}

pub open spec fn temperature_state_topic() -> Seq<char> {
    "node/analog/temperature/state"@
}

pub open spec fn pressure_state_topic() -> Seq<char> {
    "node/analog/pressure/state"@
}

pub open spec fn humidity_state_topic() -> Seq<char> {
    "node/analog/humidity/state"@
}

/// The announcements of the node's fixed sensors: battery, temperature, pressure and
/// humidity, each with its unit and the template that scales the raw reading.
pub open spec fn environment_entries() -> Seq<(Seq<char>, DiscoveryView)> {
    seq![
        (
            "homeassistant/sensor/node/analog_bat/config"@,
            sensor_view(
                "Battery"@,
                battery_state_topic(),
                "V"@,
                "{{ (float(value) * 33 / 32760) | round(3) }}"@,
            ),
        ),
        (
            "homeassistant/sensor/node/temperature/config"@,
            sensor_view(
                "Temperature"@,
                temperature_state_topic(),
                "°C"@,
                "{{ (float(value) / 100) | round(2) }}"@,
            ),
        ),
        (
            "homeassistant/sensor/node/pressure/config"@,
            sensor_view(
                "Pressure"@,
                pressure_state_topic(),
                "hPa"@,
                "{{ (float(value) / 100) | round(2) }}"@,
            ),
        ),
        (
            "homeassistant/sensor/node/humidity/config"@,
            sensor_view(
                "Humidity"@,
                humidity_state_topic(),
                "%"@,
                "{{ (float(value) / 100) | round(2) }}"@,
            ),
        ),
    ]
}

fn sensor_entry(topic: &str, name: &str, state_topic: &str, unit: &str, template: &str) -> (r: (
    String,
    Discovery,
))
    ensures
        entry_view(r) == (topic@, sensor_view(name@, state_topic@, unit@, template@)),
{
    (
        owned(topic),
        Discovery::Sensor {
            name: owned(name),
            state_topic: owned(state_topic),
            unit_of_measurement: Some(owned(unit)),
            value_template: Some(owned(template)),
        },
    )
}

fn push_environment_entries(out: &mut Vec<(String, Discovery)>)
    ensures
        entries_view(final(out)@) == entries_view(old(out)@) + environment_entries(),
{
    let ghost start = entries_view(out@);
    out.push(
        sensor_entry(
            "homeassistant/sensor/node/analog_bat/config",
            "Battery",
            "node/analog/bat/state",
            "V",
            "{{ (float(value) * 33 / 32760) | round(3) }}",
        ),
    );
    out.push(
        sensor_entry(
            "homeassistant/sensor/node/temperature/config",
            "Temperature",
            "node/analog/temperature/state",
            "°C",
            "{{ (float(value) / 100) | round(2) }}",
        ),
    );
    out.push(
        sensor_entry(
            "homeassistant/sensor/node/pressure/config",
            "Pressure",
            "node/analog/pressure/state",
            "hPa",
            "{{ (float(value) / 100) | round(2) }}",
        ),
    );
    out.push(
        sensor_entry(
            "homeassistant/sensor/node/humidity/config",
            "Humidity",
            "node/analog/humidity/state",
            "%",
            "{{ (float(value) / 100) | round(2) }}",
        ),
    );
    assert(entries_view(out@) =~= start + environment_entries());
}

/// The announcements of the digital pins, in order.
pub open spec fn digital_entries(pins: Seq<(String, DigitalPin)>) -> Seq<(Seq<char>, DiscoveryView)> {
    pins.map_values(
        |p: (String, DigitalPin)| (p.1.spec_discovery_topic(), p.1.spec_as_discovery(p.0@)),
    )
}

/// The announcements of the enabled analog pins, in order.
pub open spec fn analog_entries(pins: Seq<(String, AnalogPin)>) -> Seq<(Seq<char>, DiscoveryView)>
    decreases pins.len(),
{
    if pins.len() == 0 {
        Seq::empty()
    } else if pins.last().1.enabled {
        analog_entries(pins.drop_last()).push(
            (pins.last().1.spec_discovery_topic(), pins.last().1.spec_as_discovery(pins.last().0@)),
        )
    } else {
        analog_entries(pins.drop_last())
    }
}

/// The command topics of the output pins, in order.
pub open spec fn output_topics(pins: Seq<(String, DigitalPin)>) -> Seq<Seq<char>>
    decreases pins.len(),
{
    if pins.len() == 0 {
        Seq::empty()
    } else {
        match pins.last().1 {
            DigitalPin::Output { command_topic, .. } => output_topics(pins.drop_last()).push(
                command_topic@,
            ),
            DigitalPin::Input { .. } => output_topics(pins.drop_last()),
        }
    }
}

impl Node {
    /// Every pin's announcement, enabled analog pins only, then the fixed sensors.
    pub open spec fn spec_discovery(&self) -> Seq<(Seq<char>, DiscoveryView)> {
        digital_entries(self.spec_digital()) + analog_entries(self.spec_analog())
            + environment_entries()
    }

    /// The (topic, announcement) pairs that present the node on the control plane.
    pub fn discovery(&self) -> (r: Vec<(String, Discovery)>)
        requires
            self.wf(),
        ensures
            entries_view(r@) == self.spec_discovery(),
    {
        let mut result: Vec<(String, Discovery)> = Vec::new();
        let digital = self.digital();
        let mut i: usize = 0;
        while i < digital.len()
            invariant
                self.wf(),
                digital@ == self.spec_digital(),
                i <= digital@.len(),
                entries_view(result@) == digital_entries(digital@.subrange(0, i as int)),
            decreases digital@.len() - i,
        {
            let (name, pin) = &digital[i];
            assert(pin.spec_number() < PIN_SLOTS);
            let entry = (pin.discovery_topic(), pin.as_discovery(name.as_str()));
            let ghost before = result@;
            result.push(entry);
            assert(entries_view(result@) =~= entries_view(before).push(entry_view(entry)));
            assert(digital_entries(digital@.subrange(0, i as int + 1)) =~= digital_entries(
                digital@.subrange(0, i as int),
            ).push(entry_view(entry)));
            i = i + 1;
        }
        assert(digital@.subrange(0, digital@.len() as int) =~= digital@);
        let analog = self.analog();
        let ghost digital_part = entries_view(result@);
        let mut i: usize = 0;
        while i < analog.len()
            invariant
                self.wf(),
                analog@ == self.spec_analog(),
                i <= analog@.len(),
                entries_view(result@) == digital_part + analog_entries(analog@.subrange(0, i as int)),
            decreases analog@.len() - i,
        {
            let (name, pin) = &analog[i];
            assert(analog@.subrange(0, i as int + 1).drop_last() =~= analog@.subrange(0, i as int));
            if pin.enabled {
                assert(pin.number < ANALOG_CHANNELS);
                let entry = (pin.discovery_topic(), pin.as_discovery(name.as_str()));
                let ghost before = result@;
                result.push(entry);
                assert(entries_view(result@) =~= entries_view(before).push(entry_view(entry)));
            }
            i = i + 1;
        }
        assert(analog@.subrange(0, analog@.len() as int) =~= analog@);
        push_environment_entries(&mut result);
        result
    }

    /// The command topics to subscribe to: one per output pin, in order.
    pub fn subscribe_topics(&self) -> (r: Vec<String>)
        ensures
            r@.map_values(|s: String| s@) == output_topics(self.spec_digital()),
    {
        let mut result: Vec<String> = Vec::new();
        let digital = self.digital();
        let mut i: usize = 0;
        while i < digital.len()
            invariant
                digital@ == self.spec_digital(),
                i <= digital@.len(),
                result@.map_values(|s: String| s@) == output_topics(digital@.subrange(0, i as int)),
            decreases digital@.len() - i,
        {
            assert(digital@.subrange(0, i as int + 1).drop_last() =~= digital@.subrange(0, i as int));
            match &digital[i].1 {
                DigitalPin::Output { command_topic, .. } => {
                    let ghost before = result@;
                    result.push(command_topic.clone());
                    assert(result@.map_values(|s: String| s@) =~= before.map_values(|s: String| s@).push(command_topic@));
                },
                DigitalPin::Input { .. } => {},
            }
            i = i + 1;
        }
        assert(digital@.subrange(0, digital@.len() as int) =~= digital@);
        result
    }
}

} // verus!
