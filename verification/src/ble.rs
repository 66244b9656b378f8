//! The radio link to the host: one frame per write or notification.
//!
//! There is deliberately no pairing. The link carries a usage percentage, not
//! credentials, so an encrypted link would buy nothing.

use crate::events::BleState;
use vstd::prelude::*;

verus! {

/// Advertised name. The host daemon looks for this.
pub const DEVICE_NAME: &'static str = "Claudial";

/// Fixed random static address, so the host sees the same device across reboots
/// without any bonding involved.
pub const DEVICE_ADDRESS: [u8; 6] = [0xC1, 0xA0, 0xD3, 0x11, 0xE7, 0xE6];

pub const NUS_SERVICE_UUID: u128 = 0x6e400001_b5a3_f393_e0a9_e50e24dcca9e;

/// The host writes frames here.
pub const NUS_RX_UUID: u128 = 0x6e400002_b5a3_f393_e0a9_e50e24dcca9e;

/// The device notifies frames here.
pub const NUS_TX_UUID: u128 = 0x6e400003_b5a3_f393_e0a9_e50e24dcca9e;

/// Maximum payload per characteristic value: a notification carries at most
/// three bytes less than the negotiated maximum of 508.
pub const NUS_MAX_PAYLOAD: usize = 505;

/// Outbound frame queue, in bytes. It only has to absorb a reconnect burst.
pub const BLE_QUEUE_SIZE: usize = 1024;

/// Largest frame: frames larger than one notification cannot cross the link.
pub const BLE_MTU: u16 = 505;

/// The link's only interface.
pub struct BleNusInterface;

/// The bytes that a notification holds.
pub uninterp spec fn held_frame(frame: heapless::Vec<u8, NUS_MAX_PAYLOAD>) -> Seq<u8>;

/// `heapless::Vec::from_slice`: a copy of the bytes, where they fit.
#[verifier::external_body]
fn copied_frame(bytes: &[u8]) -> (frame: Option<heapless::Vec<u8, NUS_MAX_PAYLOAD>>)
    ensures
        frame is Some <==> bytes@.len() <= NUS_MAX_PAYLOAD,
        frame matches Some(copy) ==> held_frame(copy) == bytes@,
{
    heapless::Vec::from_slice(bytes).ok()
}

/// `heapless::Vec::default`: an empty vector.
#[verifier::external_body]
fn empty_frame() -> (frame: heapless::Vec<u8, NUS_MAX_PAYLOAD>)
    ensures
        held_frame(frame) == Seq::<u8>::empty(),
{
    heapless::Vec::default()
}

/// What a notification carries of a queued frame.
pub open spec fn carried(queued: Seq<u8>) -> Seq<u8> {
    if queued.len() <= NUS_MAX_PAYLOAD {
        queued
    } else {
        Seq::empty()
    }
}

/// The notification for a queued frame. A frame that does not fit is sent
/// empty.
pub fn notification(queued: &[u8]) -> (frame: heapless::Vec<u8, NUS_MAX_PAYLOAD>)
    ensures
        held_frame(frame) == if queued@.len() <= NUS_MAX_PAYLOAD {
            queued@
        } else {
            Seq::empty()
        },
        held_frame(frame) == carried(queued@),
{
    match copied_frame(queued) {
        Some(frame) => frame,
        None => empty_frame(),
    }
}

/// Something that happens on a connection.
#[derive(Debug, Clone, Copy, PartialEq, Eq, Structural)]
pub enum LinkEvent {
    Disconnected,
    /// A request of the host; a write names the attribute it goes to.
    Request { written: Option<u16> },
    /// Anything else the radio reports.
    Other,
    /// A frame waits to be sent.
    FrameQueued,
    /// The notification was sent, or could not be.
    Notified(bool),
}

/// What to do about it.
#[derive(Debug, Clone, Copy, PartialEq, Eq, Structural)]
pub enum LinkAction {
    /// Wait for the next thing to happen.
    Listen,
    /// Hand the written bytes to the network stack if they are a frame, then
    /// accept the request and reply.
    Accept { is_frame: bool },
    /// Send the queued frame as a notification.
    Notify,
    /// Take the interface down and leave the connection.
    Close,
}

/// The interface's state in the network stack.
#[derive(Debug, Clone, Copy, PartialEq, Eq, Structural)]
pub enum LinkState {
    /// The net's number arrives with the host's first frame; until then the
    /// link is local.
    Active { net_id: u16 },
    Inactive,
}

/// One connection: frames are pumped both ways until the host goes away.
#[derive(Debug, Clone, Copy, PartialEq, Eq, Structural)]
pub struct Connection {
    pub rx_handle: u16,
    pub state: LinkState,
}

impl Connection {
    /// What is done about an event.
    pub open spec fn reaction(self, event: LinkEvent) -> LinkAction {
        if self.state is Inactive {
            LinkAction::Close
        } else {
            match event {
                LinkEvent::Disconnected => LinkAction::Close,
                LinkEvent::Request { written } => LinkAction::Accept {
                    is_frame: written == Some(self.rx_handle),
                },
                LinkEvent::Other => LinkAction::Listen,
                LinkEvent::FrameQueued => LinkAction::Notify,
                LinkEvent::Notified(sent) => if sent {
                    LinkAction::Listen
                } else {
                    LinkAction::Close
                },
            }
        }
    }

    /// The connection after an event.
    pub open spec fn after(self, event: LinkEvent) -> Connection {
        Connection {
            state: if self.reaction(event) is Close {
                LinkState::Inactive
            } else {
                self.state
            },
            ..self
        }
    }

    /// A host has connected; its writes to `rx_handle` are frames.
    pub fn new(rx_handle: u16) -> (connection: Self)
        ensures
            connection == (Connection { rx_handle, state: LinkState::Active { net_id: 0 } }),
    {
        Connection { rx_handle, state: LinkState::Active { net_id: 0 } }
    }

    /// React to an event.
    pub fn react(&mut self, event: LinkEvent) -> (action: LinkAction)
        ensures
            action == old(self).reaction(event),
            *final(self) == (Connection {
                state: if action is Close {
                    LinkState::Inactive
                } else {
                    old(self).state
                },
                ..*old(self)
            }),
            *final(self) == old(self).after(event),
    {
        if let LinkState::Inactive = self.state {
            return LinkAction::Close;
        }
        let action = match event {
            LinkEvent::Disconnected => LinkAction::Close,
            LinkEvent::Request { written } => LinkAction::Accept {
                is_frame: match written {
                    Some(handle) => handle == self.rx_handle,
                    None => false,
                },
            },
            LinkEvent::Other => LinkAction::Listen,
            LinkEvent::FrameQueued => LinkAction::Notify,
            LinkEvent::Notified(sent) => if sent {
                LinkAction::Listen
            } else {
                LinkAction::Close
            },
        };
        if let LinkAction::Close = action {
            self.state = LinkState::Inactive;
        }
        action
    }
}

/// A connection after some events.
pub open spec fn connection_after(rx_handle: u16, events: Seq<LinkEvent>) -> Connection
    decreases events.len(),
{
    if events.len() == 0 {
        Connection { rx_handle, state: LinkState::Active { net_id: 0 } }
    } else {
        let before = connection_after(rx_handle, events.drop_last());
        Connection {
            state: if before.reaction(events.last()) is Close {
                LinkState::Inactive
            } else {
                before.state
            },
            ..before
        }
    }
}

/// The interface is up exactly as long as the host stays and notifications get
/// through.
pub proof fn law_interface_follows_the_connection(rx_handle: u16, events: Seq<LinkEvent>)
    ensures
        connection_after(rx_handle, events).rx_handle == rx_handle,
        connection_after(rx_handle, events).state is Inactive <==> exists|i: int|
            0 <= i < events.len() && (#[trigger] events[i] == LinkEvent::Disconnected || events[i]
                == LinkEvent::Notified(false)),
    decreases events.len(),
{
    if events.len() > 0 {
        let before = events.drop_last();
        law_interface_follows_the_connection(rx_handle, before);
        if connection_after(rx_handle, before).state is Inactive {
            let i = choose|i: int|
                0 <= i < before.len() && (#[trigger] before[i] == LinkEvent::Disconnected
                    || before[i] == LinkEvent::Notified(false));
            assert(events[i] == before[i]);
        } else {
            assert forall|i: int| 0 <= i < before.len() implies #[trigger] events[i]
                != LinkEvent::Disconnected && events[i] != LinkEvent::Notified(false) by {
                assert(before[i] == events[i]);
            }
            assert(events[events.len() - 1] == events.last());
        }
    }
}

/// What the peripheral is doing.
#[derive(Debug, Clone, Copy, PartialEq, Eq, Structural)]
pub enum PeripheralPhase {
    Advertising,
    Serving,
}

/// What came of it.
#[derive(Debug, Clone, Copy, PartialEq, Eq, Structural)]
pub enum PeripheralInput {
    /// A host connected, or advertising failed.
    Advertised(bool),
    /// The connection is over.
    Served,
}

/// Advertises, serves one connection, and repeats.
#[derive(Debug, Clone, Copy, PartialEq, Eq, Structural)]
pub struct Peripheral {
    pub phase: PeripheralPhase,
}

impl Peripheral {
    /// The phase after an input. An input that was not waited for changes
    /// nothing.
    pub open spec fn after(self, input: PeripheralInput) -> Peripheral {
        match (self.phase, input) {
            (PeripheralPhase::Advertising, PeripheralInput::Advertised(true)) => Peripheral {
                phase: PeripheralPhase::Serving,
            },
            (PeripheralPhase::Serving, PeripheralInput::Served) => Peripheral {
                phase: PeripheralPhase::Advertising,
            },
            _ => self,
        }
    }

    /// What the interface is told, in order.
    pub open spec fn published(self, input: PeripheralInput) -> Seq<BleState> {
        match (self.phase, input) {
            (PeripheralPhase::Advertising, PeripheralInput::Advertised(true)) => seq![
                BleState::Connected,
            ],
            (PeripheralPhase::Advertising, PeripheralInput::Advertised(false)) => seq![
                BleState::Error,
                BleState::Advertising,
            ],
            (PeripheralPhase::Serving, PeripheralInput::Served) => seq![BleState::Advertising],
            _ => Seq::empty(),
        }
    }

    /// What starting comes to, given whether the service could be set up.
    pub open spec fn started(server_built: bool) -> (Option<Peripheral>, BleState) {
        if server_built {
            (Some(Peripheral { phase: PeripheralPhase::Advertising }), BleState::Advertising)
        } else {
            (None, BleState::Error)
        }
    }

    /// A peripheral that begins to advertise, which the interface is told.
    pub fn new() -> (started: (Self, BleState))
        ensures
            started == (
                Peripheral { phase: PeripheralPhase::Advertising },
                BleState::Advertising,
            ),
    {
        (Peripheral { phase: PeripheralPhase::Advertising }, BleState::Advertising)
    }

    /// Start the peripheral, given whether its service could be set up, and tell
    /// the interface. Without the service there is nothing to advertise.
    pub fn start(server_built: bool) -> (started: (Option<Self>, BleState))
        ensures
            started == if server_built {
                (
                    Some(Peripheral { phase: PeripheralPhase::Advertising }),
                    BleState::Advertising,
                )
            } else {
                (None::<Peripheral>, BleState::Error)
            },
            started == Peripheral::started(server_built),
    {
        if !server_built {
            return (None, BleState::Error);
        }
        let (peripheral, state) = Peripheral::new();
        (Some(peripheral), state)
    }

    /// Take one step, returning what the interface is told.
    pub fn step(&mut self, input: PeripheralInput) -> (states: Vec<BleState>)
        ensures
            *final(self) == old(self).after(input),
            states@ == old(self).published(input),
    {
        let mut states: Vec<BleState> = Vec::new();
        match (self.phase, input) {
            (PeripheralPhase::Advertising, PeripheralInput::Advertised(ok)) => {
                if ok {
                    self.phase = PeripheralPhase::Serving;
                    states.push(BleState::Connected);
                } else {
                    states.push(BleState::Error);
                    states.push(BleState::Advertising);
                }
            },
            (PeripheralPhase::Serving, PeripheralInput::Served) => {
                self.phase = PeripheralPhase::Advertising;
                states.push(BleState::Advertising);
            },
            _ => {},
        }
        assert(states@ =~= old(self).published(input));
        states
    }
}

/// The interface knows what the radio is doing: after every step, what it was
/// told last is what the peripheral does.
pub proof fn law_interface_knows_the_link(peripheral: Peripheral, input: PeripheralInput)
    ensures
        peripheral.published(input).len() > 0 ==> peripheral.published(input).last() == (match
        peripheral.after(input).phase {
            PeripheralPhase::Advertising => BleState::Advertising,
            PeripheralPhase::Serving => BleState::Connected,
        }),
        peripheral.published(input).len() == 0 ==> peripheral.after(input) == peripheral,
{
}

/// A frame crosses the link whole or not at all: up to five hundred and five
/// bytes are carried as they are, and of more nothing is sent.
pub proof fn law_frames_are_carried_whole(queued: Seq<u8>)
    ensures
        queued.len() <= 505 ==> carried(queued) == queued,
        queued.len() > 505 ==> carried(queued).len() == 0,
{
}

/// While the host is there, what it writes to the frames' attribute is taken for
/// a frame and nothing else is, every request is accepted, and every queued frame
/// is sent.
pub proof fn law_frames_are_pumped_both_ways(connection: Connection, written: Option<u16>)
    requires
        connection.state is Active,
    ensures
        connection.reaction(LinkEvent::Request { written }) matches LinkAction::Accept { is_frame }
            && (is_frame <==> written == Some(connection.rx_handle)),
        connection.reaction(LinkEvent::FrameQueued) == LinkAction::Notify,
        connection.reaction(LinkEvent::Notified(true)) == LinkAction::Listen,
        connection.reaction(LinkEvent::Other) == LinkAction::Listen,
        connection.after(LinkEvent::Request { written }) == connection,
        connection.after(LinkEvent::FrameQueued) == connection,
        connection.after(LinkEvent::Notified(true)) == connection,
        connection.after(LinkEvent::Other) == connection,
{
}

/// A connection is left when the host goes away or cannot be reached, which takes
/// the interface down, and it is not taken up again.
pub proof fn law_lost_hosts_are_left(connection: Connection, event: LinkEvent)
    ensures
        connection.reaction(LinkEvent::Disconnected) == LinkAction::Close,
        connection.reaction(LinkEvent::Notified(false)) == LinkAction::Close,
        connection.after(LinkEvent::Disconnected).state is Inactive,
        connection.after(LinkEvent::Notified(false)).state is Inactive,
        connection.state is Inactive ==> connection.reaction(event) == LinkAction::Close
            && connection.after(event) == connection,
        connection_after(connection.rx_handle, seq![event]) == (Connection {
            state: LinkState::Active { net_id: 0 },
            ..connection
        }).after(event),
{
    reveal_with_fuel(connection_after, 2);
    assert(seq![event].drop_last() =~= Seq::<LinkEvent>::empty());
}

/// Every change of the radio is told as it happens: a host that connected, one
/// that left, and advertising that failed and is taken up again. A peripheral
/// without its service is an error and does nothing.
pub proof fn law_changes_of_the_radio_are_told()
    ensures
        ({
            let advertising = Peripheral { phase: PeripheralPhase::Advertising };
            let serving = Peripheral { phase: PeripheralPhase::Serving };
            let connected = PeripheralInput::Advertised(true);
            let failed = PeripheralInput::Advertised(false);
            &&& advertising.after(connected) == serving
            &&& advertising.published(connected) == seq![BleState::Connected]
            &&& advertising.after(failed) == advertising
            &&& advertising.published(failed) == seq![BleState::Error, BleState::Advertising]
            &&& serving.after(PeripheralInput::Served) == advertising
            &&& serving.published(PeripheralInput::Served) == seq![BleState::Advertising]
            &&& Peripheral::started(true) == (Some(advertising), BleState::Advertising)
            &&& Peripheral::started(false) == (None::<Peripheral>, BleState::Error)
        }),
{
}

} // verus!
