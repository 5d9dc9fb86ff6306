use vstd::prelude::*;

use crate::config::Node;
use crate::error::Error;
use crate::util::{DATA_PACKET_LEN, PACKET_CONFIG, PACKET_DATA};

verus! {

/// Control bit set in a frame that asks its receiver for an acknowledgement.
pub const ACK_REQUEST_BIT: u8 = 0x40;

/// Control bit set in a frame that is itself an acknowledgement.
pub const ACK_BIT: u8 = 0x80;

/// Number of header bytes after the length byte: `to`, `from`, `control`.
pub const HEADER_LEN: u8 = 3;

/// The mathematical content of a frame.
pub struct PacketView {
    pub from: u8,
    pub to: u8,
    pub control: u8,
    pub message: Seq<u8>,
}

/// The frame that `Packet::new` builds.
pub open spec fn new_packet(from: u8, to: u8, message: Seq<u8>, request_ack: bool) -> PacketView {
    PacketView {
        from,
        to,
        control: if request_ack { ACK_REQUEST_BIT } else { 0u8 },
        message,
    }
}

/// The acknowledgement answering `p`: addresses swapped, no payload, only the ack bit.
pub open spec fn ack_packet(p: PacketView) -> PacketView {
    PacketView { from: p.to, to: p.from, control: ACK_BIT, message: Seq::empty() }
}

pub open spec fn spec_ack_requested(p: PacketView) -> bool {
    p.control & ACK_REQUEST_BIT != 0
}

/// Wire layout: `[length, to, from, control, message...]`, where `length` counts the
/// three header bytes and the payload, not itself.
pub open spec fn frame_of(p: PacketView) -> Seq<u8> {
    seq![((p.message.len() + 3) % 256) as u8, p.to, p.from, p.control] + p.message
}

/// Reading a frame back; a length byte that reaches past the buffer, or a buffer too
/// short for the header, is an out-of-range error naming the buffer size and the index.
pub open spec fn decode_frame(b: Seq<u8>) -> Result<PacketView, Error> {
    if b.len() == 0 {
        Err(Error::IndexOutOfRange { size: 0, index: 0 })
    } else if b[0] as nat >= b.len() {
        Err(Error::IndexOutOfRange { size: b.len() as usize, index: b[0] as usize })
    } else if b.len() < 4 {
        Err(Error::IndexOutOfRange { size: b.len() as usize, index: 3 })
    } else {
        Ok(
            PacketView {
                to: b[1],
                from: b[2],
                control: b[3],
                message: if b[0] > HEADER_LEN {
                    b.subrange(4, b[0] as int + 1)
                } else {
                    Seq::empty()
                },
            },
        )
    }
}

/// A radio frame: addressing, control flags and an opaque payload.
#[derive(Debug)]
pub struct Packet {
    from: u8,
    to: u8,
    message: Vec<u8>,
    control: u8,
}

impl View for Packet {
    type V = PacketView;

    closed spec fn view(&self) -> PacketView {
        PacketView { from: self.from, to: self.to, control: self.control, message: self.message@ }
    }
}

impl Packet {
    /// Builds a frame; `request_ack` sets the acknowledgement-request bit.
    pub fn new(from: u8, to: u8, message: Vec<u8>, request_ack: bool) -> (r: Packet)
        ensures
            r@ == new_packet(from, to, message@, request_ack),
    {
        let mut control: u8 = 0;
        if request_ack {
            control = control | ACK_REQUEST_BIT;
        }
        assert(0u8 | 0x40u8 == 0x40u8) by (bit_vector);
        Packet { from, to, message, control }
    }

    /// Gives up the frame for its payload.
    pub fn message(self) -> (r: Vec<u8>)
        ensures
            r@ == self@.message,
    {
        self.message
    }

    /// The acknowledgement that answers `packet`; it never asks for one itself.
    pub fn ack_from(packet: &Packet) -> (r: Packet)
        ensures
            r@ == ack_packet(packet@),
            !spec_ack_requested(r@),
    {
        assert(0x80u8 & 0x40u8 == 0) by (bit_vector);
        Packet { from: packet.to, to: packet.from, message: Vec::new(), control: ACK_BIT }
    }

    /// Decodes a received buffer, failing instead of reading past its end.
    pub fn from_bytes(buffer: &[u8]) -> (r: Result<Packet, Error>)
        ensures
            match r {
                Ok(p) => decode_frame(buffer@) == Ok::<PacketView, Error>(p@),
                Err(e) => decode_frame(buffer@) == Err::<PacketView, Error>(e),
            },
    {
        if buffer.len() == 0 {
            return Err(Error::new_index_out_of_range(0, 0));
        }
        let len = buffer[0] as usize;
        if len >= buffer.len() {
            return Err(Error::new_index_out_of_range(buffer.len(), len));
        }
        if buffer.len() < 4 {
            return Err(Error::new_index_out_of_range(buffer.len(), 3));
        }
        let to = buffer[1];
        let from = buffer[2];
        let control = buffer[3];
        let mut message: Vec<u8> = Vec::new();
        if len > HEADER_LEN as usize {
            let mut i: usize = 4;
            while i <= len
                invariant
                    4 <= i <= len + 1,
                    len < buffer@.len(),
                    message@ == buffer@.subrange(4, i as int),
                decreases len + 1 - i,
            {
                message.push(buffer[i]);
                i = i + 1;
            }
        }
        let r = Packet { from, to, message, control };
        assert(r@ == decode_frame(buffer@)->Ok_0);
        Ok(r)
    }

    pub fn ack_requested(&self) -> (r: bool)
        ensures
            r == spec_ack_requested(self@),
    {
        self.control & ACK_REQUEST_BIT != 0
    }

    pub fn is_to(&self, addr: u8) -> (r: bool)
        ensures
            r == (self@.to == addr),
    {
        self.to == addr
    }

    /// Encodes the frame for the radio.
    pub fn as_bytes(&self) -> (r: Vec<u8>)
        ensures
            r@ == frame_of(self@),
    {
        let n = self.message.len();
        let len: u8 = if n < 253 {
            (n + 3) as u8
        } else {
            ((n - 253) % 256) as u8
        };
        let mut buffer: Vec<u8> = Vec::new();
        buffer.push(len);
        buffer.push(self.to);
        buffer.push(self.from);
        buffer.push(self.control);
        let mut i: usize = 0;
        while i < self.message.len()
            invariant
                i <= self.message@.len(),
                buffer@ == seq![len, self.to, self.from, self.control] + self.message@.subrange(
                    0,
                    i as int,
                ),
            decreases self.message@.len() - i,
        {
            buffer.push(self.message[i]);
            i = i + 1;
        }
        assert(self.message@.subrange(0, self.message@.len() as int) == self.message@);
        buffer
    }
}

/// Decoding an encoded frame gives back the frame that `Packet::new` built, for every
/// payload whose length fits the length byte.
pub proof fn lemma_round_trip(from: u8, to: u8, message: Seq<u8>, request_ack: bool)
    requires
        message.len() + HEADER_LEN <= 255,
    ensures
        decode_frame(frame_of(new_packet(from, to, message, request_ack))) == Ok::<
            PacketView,
            Error,
        >(new_packet(from, to, message, request_ack)),
{
    let p = new_packet(from, to, message, request_ack);
    let b = frame_of(p);
    assert(b[0] as nat == message.len() + 3);
    if message.len() > 0 {
        assert(b.subrange(4, b[0] as int + 1) =~= message);
    } else {
        assert(message =~= Seq::<u8>::empty());
    }
}

/// A buffer whose length byte reaches past its end is rejected with the buffer size
/// and the declared length.
pub proof fn lemma_overlong_frame_rejected(b: Seq<u8>)
    requires
        b.len() > 0,
        b[0] as nat >= b.len(),
    ensures
        decode_frame(b) == Err::<PacketView, Error>(
            Error::IndexOutOfRange { size: b.len() as usize, index: b[0] as usize },
        ),
{
}

/// An acknowledgement swaps the addresses, carries nothing, has only the ack bit set
/// and asks for no acknowledgement, whatever the flags of the frame it answers.
pub proof fn lemma_ack_shape(p: PacketView)
    ensures
        ack_packet(p).control == ACK_BIT,
        ack_packet(p).from == p.to,
        ack_packet(p).to == p.from,
        ack_packet(p).message.len() == 0,
        !spec_ack_requested(ack_packet(p)),
{
    assert(0x80u8 & 0x40u8 == 0) by (bit_vector);
}

/// A payload by which the node asks for its configuration.
pub open spec fn spec_is_config_request(data: Seq<u8>) -> bool {
    data.len() == 1 && data[0] == PACKET_CONFIG
}

/// A payload that is a telemetry report.
pub open spec fn spec_is_data_update(data: Seq<u8>) -> bool {
    data.len() == DATA_PACKET_LEN && data[0] == PACKET_DATA
}

pub fn is_config_request(data: &[u8]) -> (r: bool)
    ensures
        r == spec_is_config_request(data@),
{
    data.len() == 1 && data[0] == PACKET_CONFIG
}

pub fn is_data_update(data: &[u8]) -> (r: bool)
    ensures
        r == spec_is_data_update(data@),
{
    data.len() == DATA_PACKET_LEN && data[0] == PACKET_DATA
}

/// What one received frame yields: its payload, and the acknowledgement frame to
/// transmit before handing the payload on, when one is owed.
pub struct Reception {
    pub message: Vec<u8>,
    pub ack: Option<Vec<u8>>,
}

/// Whether a frame is owed an acknowledgement by the gateway at `gateway_addr`.
pub open spec fn ack_owed(p: PacketView, gateway_addr: u8) -> bool {
    spec_ack_requested(p) && p.to == gateway_addr
}

/// Handles a buffer read from the radio: decodes the frame and, when it asks this
/// gateway for an acknowledgement, encodes the acknowledgement to send back.
pub fn receive_frame(buffer: &[u8], gateway_addr: u8) -> (r: Result<Reception, Error>)
    ensures
        r is Ok <==> decode_frame(buffer@) is Ok,
        r matches Err(e) ==> decode_frame(buffer@) == Err::<PacketView, Error>(e),
        r matches Ok(rec) ==> {
            let p = decode_frame(buffer@)->Ok_0;
            &&& rec.message@ == p.message
            &&& rec.ack is Some <==> ack_owed(p, gateway_addr)
            &&& rec.ack matches Some(a) ==> a@ == frame_of(ack_packet(p))
        },
{
    let packet = match Packet::from_bytes(buffer) {
        Ok(p) => p,
        Err(e) => {
            return Err(e);
        },
    };
    let ack = if packet.ack_requested() && packet.is_to(gateway_addr) {
        let reply = Packet::ack_from(&packet);
        Some(reply.as_bytes())
    } else {
        None
    };
    Ok(Reception { message: packet.message(), ack })
}

/// Encodes a payload from the gateway to `to`, asking for no acknowledgement.
pub fn send_frame(from: u8, to: u8, data: Vec<u8>) -> (r: Vec<u8>)
    ensures
        r@ == frame_of(new_packet(from, to, data@, false)),
{
    let packet = Packet::new(from, to, data, false);
    packet.as_bytes()
}

/// The frame pushing `node`'s configuration, when it has changed since the last push.
pub open spec fn pushed_config(node: Node, gateway_addr: u8) -> Option<Seq<u8>> {
    if node.spec_dirty() {
        Some(
            frame_of(
                new_packet(
                    gateway_addr,
                    node.spec_addr(),
                    seq![PACKET_CONFIG] + node.spec_downlink(),
                    false,
                ),
            ),
        )
    } else {
        None
    }
}

/// Answers a configuration request: when the configuration has changed, gives the
/// frame that carries it to the node; in every case clears the changed flag, so that
/// a failed push is not repeated until the configuration changes again.
pub fn send_config(node: &mut Node, gateway_addr: u8) -> (r: Option<Vec<u8>>)
    requires
        old(node).wf(),
    ensures
        r is Some <==> old(node).spec_dirty(),
        r matches Some(f) ==> Some(f@) == pushed_config(*old(node), gateway_addr),
        !final(node).spec_dirty(),
        final(node).wf(),
        final(node).spec_sleep_time() == old(node).spec_sleep_time(),
        final(node).spec_addr() == old(node).spec_addr(),
        final(node).spec_digital() == old(node).spec_digital(),
        final(node).spec_analog() == old(node).spec_analog(),
{
    let frame = if node.is_config_dirty() {
        let config = node.to_bytes();
        let mut buffer: Vec<u8> = Vec::new();
        buffer.push(PACKET_CONFIG);
        let mut i: usize = 0;
        while i < config.len()
            invariant
                i <= config@.len(),
                buffer@ == seq![PACKET_CONFIG] + config@.subrange(0, i as int),
            decreases config@.len() - i,
        {
            buffer.push(config[i]);
            i = i + 1;
        }
        assert(config@.subrange(0, config@.len() as int) == config@);
        Some(send_frame(gateway_addr, node.addr(), buffer))
    } else {
        None
    };
    node.update_config_dirty(false);
    frame
}

/// Sending the configuration twice in a row, with nothing changed in between, sends
/// it at most once: the first call clears the flag that the second one reads.
pub proof fn lemma_send_config_at_most_once(n0: Node, n1: Node, gateway_addr: u8)
    requires
        !n1.spec_dirty(),
    ensures
        pushed_config(n1, gateway_addr) is None,
        pushed_config(n0, gateway_addr) is Some <==> n0.spec_dirty(),
{
}

/// What the radio loop does with one received payload.
pub enum PollAction {
    /// Transmit this frame to the node.
    Transmit(Vec<u8>),
    /// Hand these telemetry bytes to the orchestrator.
    Forward(Vec<u8>),
    /// Nothing to do.
    Idle,
    /// The payload is neither a request nor a report.
    Discard,
}

/// Handles one payload received from the node: a configuration request is answered by
/// `send_config`; a telemetry report is forwarded without its marker byte; anything else
/// is discarded.
pub fn on_payload(node: &mut Node, gateway_addr: u8, payload: &[u8]) -> (r: PollAction)
    requires
        old(node).wf(),
    ensures
        final(node).wf(),
        final(node).spec_sleep_time() == old(node).spec_sleep_time(),
        final(node).spec_addr() == old(node).spec_addr(),
        final(node).spec_digital() == old(node).spec_digital(),
        final(node).spec_analog() == old(node).spec_analog(),
        spec_is_config_request(payload@) ==> !final(node).spec_dirty() && match r {
            PollAction::Transmit(f) => Some(f@) == pushed_config(*old(node), gateway_addr),
            PollAction::Idle => pushed_config(*old(node), gateway_addr) is None,
            _ => false,
        },
        !spec_is_config_request(payload@) ==> final(node).spec_dirty() == old(node).spec_dirty(),
        spec_is_data_update(payload@) ==> (r matches PollAction::Forward(b) && b@ == payload@.subrange(
            1,
            payload@.len() as int,
        )),
        !spec_is_config_request(payload@) && !spec_is_data_update(payload@) ==> r is Discard,
{
    if is_config_request(payload) {
        match send_config(node, gateway_addr) {
            Some(frame) => PollAction::Transmit(frame),
            None => PollAction::Idle,
        }
    } else if is_data_update(payload) {
        let mut rest: Vec<u8> = Vec::new();
        let mut i: usize = 1;
        while i < payload.len()
            invariant
                1 <= i <= payload@.len(),
                rest@ == payload@.subrange(1, i as int),
            decreases payload@.len() - i,
        {
            rest.push(payload[i]);
            i = i + 1;
        }
        PollAction::Forward(rest)
    } else {
        PollAction::Discard
    }
}

} // verus!
