//! The radio link as the daemon sees it.
//!
//! The daemon is the controller of a two-node link: it owns the net's number
//! and the instrument adopts it from the first frame.

use crate::ble::{NUS_RX_UUID, NUS_TX_UUID};
use vstd::prelude::*;
use vstd::string::StringExecFns;

verus! {

/// The net this daemon hands to the instrument. Any non-zero value works; the
/// link has exactly two nodes.
pub const NET_ID: u16 = 1;

/// Outbound frame queue, in bytes.
pub const OUT_BUFFER_SIZE: usize = 4096;

/// The link's only interface.
pub struct BleNusInterface;

/// Whether a device goes by the name the instrument advertises.
pub fn is_instrument(name: &Option<String>, wanted: &str) -> (matching: bool)
    ensures
        matching == (name is Some && name->0@ == wanted@),
{
    match name {
        Some(name) => {
            let wanted = String::from_str(wanted);
            *name == wanted
        },
        None => false,
    }
}

/// The first device that goes by the instrument's name.
///
/// A connected instrument stops advertising, so devices that are connected
/// already are looked through before a scan is begun.
pub fn find_device(names: &Vec<Option<String>>, wanted: &str) -> (found: Option<usize>)
    ensures
        match found {
            Some(index) => {
                &&& index < names@.len()
                &&& names@[index as int] is Some && names@[index as int]->0@ == wanted@
                &&& forall|i: int|
                    0 <= i < index ==> !((#[trigger] names@[i]) is Some && names@[i]->0@
                        == wanted@)
            },
            None => forall|i: int|
                0 <= i < names@.len() ==> !((#[trigger] names@[i]) is Some && names@[i]->0@
                    == wanted@),
        },
{
    let mut i: usize = 0;
    while i < names.len()
        invariant
            i <= names@.len(),
            forall|k: int|
                0 <= k < i ==> !((#[trigger] names@[k]) is Some && names@[k]->0@ == wanted@),
        decreases names.len() - i,
    {
        if is_instrument(&names[i], wanted) {
            return Some(i);
        }
        i = i + 1;
    }
    None
}

/// Why the instrument was not found.
#[derive(Debug, Clone, Copy, PartialEq, Eq, Structural)]
pub enum SearchError {
    NoAdapter,
    /// The radio or its scan could not be used.
    RadioFailed,
    ScanEnded,
    TimedOut,
}

/// What came of the last action.
pub enum SearchInput {
    /// There is a radio, or there is none.
    Adapter(bool),
    /// The radio is ready, or failed.
    Available(bool),
    /// The names of the devices that are connected, none where they cannot be
    /// listed.
    Connected(Vec<Option<String>>),
    /// A scan was begun, or could not be.
    Scanning(bool),
    /// The name in an advertisement.
    Advertised(Option<String>),
    ScanEnded,
    TimedOut,
}

/// What to do next.
#[derive(Debug, Clone, Copy, PartialEq, Eq, Structural)]
pub enum SearchAction {
    GetAdapter,
    AwaitAvailable,
    ListConnected,
    /// Use the connected device at this place of the list.
    Adopt(usize),
    Scan,
    AwaitAdvertisement,
    /// Use the device that sent the last advertisement.
    UseAdvertised,
    Fail(SearchError),
}

/// Looking for the instrument: an existing connection first, an advertisement
/// second.
#[derive(Debug, Clone, Copy, PartialEq, Eq, Structural)]
pub struct Search {
    pub doing: SearchAction,
}

/// Index of the first device with a name.
pub open spec fn first_named(names: Seq<Option<String>>, wanted: Seq<char>) -> Option<int>
    decreases names.len(),
{
    if names.len() == 0 {
        None
    } else {
        match first_named(names.drop_last(), wanted) {
            Some(index) => Some(index),
            None => if names.last() is Some && names.last()->0@ == wanted {
                Some(names.len() - 1)
            } else {
                None
            },
        }
    }
}

proof fn lemma_first_named(names: Seq<Option<String>>, wanted: Seq<char>)
    ensures
        match first_named(names, wanted) {
            Some(index) => {
                &&& 0 <= index < names.len()
                &&& names[index] is Some && names[index]->0@ == wanted
                &&& forall|i: int|
                    0 <= i < index ==> !((#[trigger] names[i]) is Some && names[i]->0@ == wanted)
            },
            None => forall|i: int|
                0 <= i < names.len() ==> !((#[trigger] names[i]) is Some && names[i]->0@ == wanted),
        },
    decreases names.len(),
{
    if names.len() > 0 {
        let before = names.drop_last();
        lemma_first_named(before, wanted);
        assert forall|i: int| 0 <= i < before.len() implies #[trigger] names[i] == before[i] by {}
    }
}

impl Search {
    /// What follows an input. An input that was not waited for changes nothing.
    pub open spec fn after(self, input: SearchInput, wanted: Seq<char>) -> SearchAction {
        match (self.doing, input) {
            (SearchAction::GetAdapter, SearchInput::Adapter(there)) => if there {
                SearchAction::AwaitAvailable
            } else {
                SearchAction::Fail(SearchError::NoAdapter)
            },
            (SearchAction::AwaitAvailable, SearchInput::Available(ok)) => if ok {
                SearchAction::ListConnected
            } else {
                SearchAction::Fail(SearchError::RadioFailed)
            },
            (SearchAction::ListConnected, SearchInput::Connected(names)) => match first_named(
                names@,
                wanted,
            ) {
                Some(index) => SearchAction::Adopt(index as usize),
                None => SearchAction::Scan,
            },
            (SearchAction::Scan, SearchInput::Scanning(ok)) => if ok {
                SearchAction::AwaitAdvertisement
            } else {
                SearchAction::Fail(SearchError::RadioFailed)
            },
            (SearchAction::AwaitAdvertisement, SearchInput::Advertised(name)) => if name is Some
                && name->0@ == wanted {
                SearchAction::UseAdvertised
            } else {
                SearchAction::AwaitAdvertisement
            },
            (SearchAction::AwaitAdvertisement, SearchInput::ScanEnded) => SearchAction::Fail(
                SearchError::ScanEnded,
            ),
            (SearchAction::AwaitAdvertisement, SearchInput::TimedOut) => SearchAction::Fail(
                SearchError::TimedOut,
            ),
            (doing, _) => doing,
        }
    }

    /// A search that is about to start.
    pub fn new() -> (search: Self)
        ensures
            search == (Search { doing: SearchAction::GetAdapter }),
    {
        Search { doing: SearchAction::GetAdapter }
    }

    /// Take one step of the search for a device with a name.
    pub fn step(&mut self, input: SearchInput, wanted: &str) -> (action: SearchAction)
        ensures
            action == old(self).after(input, wanted@),
            final(self).doing == action,
    {
        match (self.doing, input) {
            (SearchAction::GetAdapter, SearchInput::Adapter(there)) => {
                self.doing = if there {
                    SearchAction::AwaitAvailable
                } else {
                    SearchAction::Fail(SearchError::NoAdapter)
                };
            },
            (SearchAction::AwaitAvailable, SearchInput::Available(ok)) => {
                self.doing = if ok {
                    SearchAction::ListConnected
                } else {
                    SearchAction::Fail(SearchError::RadioFailed)
                };
            },
            (SearchAction::ListConnected, SearchInput::Connected(names)) => {
                proof {
                    lemma_first_named(names@, wanted@);
                }
                self.doing = match find_device(&names, wanted) {
                    Some(index) => {
                        let ghost first = first_named(names@, wanted@);
                        assert(first is Some && first->0 == index) by {
                            if first is None {
                                assert(!(names@[index as int] is Some && names@[index as int]->0@
                                    == wanted@));
                            } else if first->0 > index {
                                assert(!(names@[index as int] is Some && names@[index as int]->0@
                                    == wanted@));
                            }
                        }
                        SearchAction::Adopt(index)
                    },
                    None => SearchAction::Scan,
                };
            },
            (SearchAction::Scan, SearchInput::Scanning(ok)) => {
                self.doing = if ok {
                    SearchAction::AwaitAdvertisement
                } else {
                    SearchAction::Fail(SearchError::RadioFailed)
                };
            },
            (SearchAction::AwaitAdvertisement, SearchInput::Advertised(name)) => {
                if is_instrument(&name, wanted) {
                    self.doing = SearchAction::UseAdvertised;
                }
            },
            (SearchAction::AwaitAdvertisement, SearchInput::ScanEnded) => {
                self.doing = SearchAction::Fail(SearchError::ScanEnded);
            },
            (SearchAction::AwaitAdvertisement, SearchInput::TimedOut) => {
                self.doing = SearchAction::Fail(SearchError::TimedOut);
            },
            _ => {},
        }
        self.doing
    }
}

/// A device that is connected already is adopted rather than scanned for, since
/// a connected instrument no longer advertises.
pub proof fn law_connected_instruments_are_adopted(names: Vec<Option<String>>, wanted: Seq<char>)
    ensures
        ({
            let action = (Search { doing: SearchAction::ListConnected }).after(
                SearchInput::Connected(names),
                wanted,
            );
            &&& (exists|i: int|
                0 <= i < names@.len() && (#[trigger] names@[i]) is Some && names@[i]->0@ == wanted)
                <==> action is Adopt
            &&& action matches SearchAction::Adopt(index) ==> index < names@.len()
                && names@[index as int] is Some && names@[index as int]->0@ == wanted
        }),
{
    lemma_first_named(names@, wanted);
    assert(names.len() == names@.len());
}

/// Why a link could not be attached.
#[derive(Debug, Clone, Copy, PartialEq, Eq, Structural)]
pub enum ConnectError {
    NotDown,
    NoAdapter,
    ConnectFailed,
    ServiceDiscoveryFailed,
    NoService,
    CharacteristicDiscoveryFailed,
    RxMissing,
    TxMissing,
}

impl ConnectError {
    /// The error in words.
    pub fn message(self) -> (message: &'static str)
        ensures
            message@ == match self {
                ConnectError::NotDown => "BLE interface is not Down"@,
                ConnectError::NoAdapter => "no BLE adapter available"@,
                ConnectError::ConnectFailed => "BLE connect failed"@,
                ConnectError::ServiceDiscoveryFailed => "NUS service discovery failed"@,
                ConnectError::NoService => "device has no NUS service"@,
                ConnectError::CharacteristicDiscoveryFailed =>
                    "NUS characteristic discovery failed"@,
                ConnectError::RxMissing => "NUS RX characteristic missing"@,
                ConnectError::TxMissing => "NUS TX characteristic missing"@,
            },
    {
        match self {
            ConnectError::NotDown => "BLE interface is not Down",
            ConnectError::NoAdapter => "no BLE adapter available",
            ConnectError::ConnectFailed => "BLE connect failed",
            ConnectError::ServiceDiscoveryFailed => "NUS service discovery failed",
            ConnectError::NoService => "device has no NUS service",
            ConnectError::CharacteristicDiscoveryFailed => "NUS characteristic discovery failed",
            ConnectError::RxMissing => "NUS RX characteristic missing",
            ConnectError::TxMissing => "NUS TX characteristic missing",
        }
    }
}

/// The interface's state in the network stack.
#[derive(Debug, Clone, Copy, PartialEq, Eq, Structural)]
pub enum LinkState {
    Down,
    Inactive,
    /// Up, on a net that has no number yet.
    ActiveLocal,
    /// Up, on the net with a number, as its central node or its edge.
    Active { net_id: u16, central: bool },
}

/// The interface can be attached to: it is down, or not there at all.
pub open spec fn is_down(state: Option<LinkState>) -> bool {
    state is None || state == Some(LinkState::Down)
}

/// Whether a link may be attached to an interface in a state.
pub fn may_connect(state: Option<LinkState>) -> (down: bool)
    ensures
        down == is_down(state),
{
    match state {
        Some(LinkState::Down) => true,
        Some(_) => false,
        None => true,
    }
}

/// The state of the interface once a link is attached: the daemon is the
/// central node of the net it owns.
pub fn attached_state() -> (state: LinkState)
    ensures
        state == (LinkState::Active { net_id: NET_ID, central: true }),
{
    LinkState::Active { net_id: NET_ID, central: true }
}

/// What came of the last action.
pub enum ConnectInput {
    /// Earlier workers were stopped; the interface's state, if it is there.
    Interface(Option<LinkState>),
    /// There is a radio, or there is none.
    Adapter(bool),
    /// The device accepted the connection, or did not.
    Connected(bool),
    /// How many services of the wanted sort were found, or nothing.
    Services(Option<usize>),
    /// The characteristics of the first service, or nothing.
    Characteristics(Option<Vec<u128>>),
}

/// What to do next.
#[derive(Debug, Clone, Copy, PartialEq, Eq, Structural)]
pub enum ConnectAction {
    /// Stop the workers of an earlier link and look at the interface.
    StopWorkers,
    GetAdapter,
    ConnectDevice,
    DiscoverServices,
    /// Discover the characteristics of the first service found.
    DiscoverCharacteristics,
    /// Take the interface to a state and start the two workers: one that reads
    /// notifications of `tx`, and one that writes frames to `rx`.
    Attach { rx: usize, tx: usize, state: LinkState },
    Fail(ConnectError),
}

/// Index of the first characteristic with an identifier.
pub open spec fn first_index(uuids: Seq<u128>, uuid: u128) -> Option<int>
    decreases uuids.len(),
{
    if uuids.len() == 0 {
        None
    } else {
        match first_index(uuids.drop_last(), uuid) {
            Some(index) => Some(index),
            None => if uuids.last() == uuid {
                Some(uuids.len() - 1)
            } else {
                None
            },
        }
    }
}

proof fn lemma_first_index(uuids: Seq<u128>, uuid: u128)
    ensures
        match first_index(uuids, uuid) {
            Some(index) => 0 <= index < uuids.len() && uuids[index] == uuid && forall|i: int|
                0 <= i < index ==> #[trigger] uuids[i] != uuid,
            None => forall|i: int| 0 <= i < uuids.len() ==> #[trigger] uuids[i] != uuid,
        },
    decreases uuids.len(),
{
    if uuids.len() > 0 {
        let before = uuids.drop_last();
        lemma_first_index(before, uuid);
        assert forall|i: int| 0 <= i < before.len() implies #[trigger] uuids[i] == before[i] by {}
    }
}

fn position_of(uuids: &Vec<u128>, uuid: u128) -> (position: Option<usize>)
    ensures
        match position {
            Some(index) => first_index(uuids@, uuid) == Some(index as int),
            None => first_index(uuids@, uuid) is None,
        },
{
    let mut i: usize = 0;
    while i < uuids.len()
        invariant
            i <= uuids@.len(),
            forall|k: int| 0 <= k < i ==> #[trigger] uuids@[k] != uuid,
        decreases uuids.len() - i,
    {
        if uuids[i] == uuid {
            proof {
                lemma_first_index(uuids@, uuid);
            }
            return Some(i);
        }
        i = i + 1;
    }
    proof {
        lemma_first_index(uuids@, uuid);
    }
    None
}

/// Attaching a link: connect, discover the service, and start pumping.
#[derive(Debug, Clone, Copy, PartialEq, Eq, Structural)]
pub struct Connecting {
    pub doing: ConnectAction,
}

impl Connecting {
    /// What follows an input. An input that was not waited for changes nothing.
    pub open spec fn after(self, input: ConnectInput) -> ConnectAction {
        match (self.doing, input) {
            (ConnectAction::StopWorkers, ConnectInput::Interface(state)) => if is_down(state) {
                ConnectAction::GetAdapter
            } else {
                ConnectAction::Fail(ConnectError::NotDown)
            },
            (ConnectAction::GetAdapter, ConnectInput::Adapter(there)) => if there {
                ConnectAction::ConnectDevice
            } else {
                ConnectAction::Fail(ConnectError::NoAdapter)
            },
            (ConnectAction::ConnectDevice, ConnectInput::Connected(ok)) => if ok {
                ConnectAction::DiscoverServices
            } else {
                ConnectAction::Fail(ConnectError::ConnectFailed)
            },
            (ConnectAction::DiscoverServices, ConnectInput::Services(None)) => ConnectAction::Fail(
                ConnectError::ServiceDiscoveryFailed,
            ),
            (ConnectAction::DiscoverServices, ConnectInput::Services(Some(count))) => if count
                == 0 {
                ConnectAction::Fail(ConnectError::NoService)
            } else {
                ConnectAction::DiscoverCharacteristics
            },
            (ConnectAction::DiscoverCharacteristics, ConnectInput::Characteristics(None)) =>
                ConnectAction::Fail(ConnectError::CharacteristicDiscoveryFailed),
            (ConnectAction::DiscoverCharacteristics, ConnectInput::Characteristics(Some(uuids))) =>
                match (first_index(uuids@, NUS_RX_UUID), first_index(uuids@, NUS_TX_UUID)) {
                (None, _) => ConnectAction::Fail(ConnectError::RxMissing),
                (Some(_), None) => ConnectAction::Fail(ConnectError::TxMissing),
                (Some(rx), Some(tx)) => ConnectAction::Attach {
                    rx: rx as usize,
                    tx: tx as usize,
                    state: LinkState::Active { net_id: NET_ID, central: true },
                },
            },
            (doing, _) => doing,
        }
    }

    /// A link that is about to be attached.
    pub fn new() -> (connecting: Self)
        ensures
            connecting == (Connecting { doing: ConnectAction::StopWorkers }),
    {
        Connecting { doing: ConnectAction::StopWorkers }
    }

    /// Take one step.
    pub fn step(&mut self, input: ConnectInput) -> (action: ConnectAction)
        ensures
            action == old(self).after(input),
            final(self).doing == action,
    {
        match (self.doing, input) {
            (ConnectAction::StopWorkers, ConnectInput::Interface(state)) => {
                self.doing = if may_connect(state) {
                    ConnectAction::GetAdapter
                } else {
                    ConnectAction::Fail(ConnectError::NotDown)
                };
            },
            (ConnectAction::GetAdapter, ConnectInput::Adapter(there)) => {
                self.doing = if there {
                    ConnectAction::ConnectDevice
                } else {
                    ConnectAction::Fail(ConnectError::NoAdapter)
                };
            },
            (ConnectAction::ConnectDevice, ConnectInput::Connected(ok)) => {
                self.doing = if ok {
                    ConnectAction::DiscoverServices
                } else {
                    ConnectAction::Fail(ConnectError::ConnectFailed)
                };
            },
            (ConnectAction::DiscoverServices, ConnectInput::Services(found)) => {
                self.doing = match found {
                    None => ConnectAction::Fail(ConnectError::ServiceDiscoveryFailed),
                    Some(count) => if count == 0 {
                        ConnectAction::Fail(ConnectError::NoService)
                    } else {
                        ConnectAction::DiscoverCharacteristics
                    },
                };
            },
            (ConnectAction::DiscoverCharacteristics, ConnectInput::Characteristics(found)) => {
                self.doing = match found {
                    None => ConnectAction::Fail(ConnectError::CharacteristicDiscoveryFailed),
                    Some(uuids) => {
                        proof {
                            lemma_first_index(uuids@, NUS_RX_UUID);
                            lemma_first_index(uuids@, NUS_TX_UUID);
                        }
                        match position_of(&uuids, NUS_RX_UUID) {
                            None => ConnectAction::Fail(ConnectError::RxMissing),
                            Some(rx) => match position_of(&uuids, NUS_TX_UUID) {
                                None => ConnectAction::Fail(ConnectError::TxMissing),
                                Some(tx) => ConnectAction::Attach {
                                    rx,
                                    tx,
                                    state: attached_state(),
                                },
                            },
                        }
                    },
                };
            },
            _ => {},
        }
        self.doing
    }
}

/// A link is attached only over the two characteristics of the service: the one
/// written to is the one the instrument reads, and the other way round.
pub proof fn law_links_use_the_right_characteristics(uuids: Vec<u128>)
    ensures
        ({
            let action = (Connecting { doing: ConnectAction::DiscoverCharacteristics }).after(
                ConnectInput::Characteristics(Some(uuids)),
            );
            &&& action matches ConnectAction::Attach { rx, tx, .. } ==> rx < uuids@.len() && tx
                < uuids@.len() && uuids@[rx as int] == NUS_RX_UUID && uuids@[tx as int]
                == NUS_TX_UUID && rx != tx
            &&& uuids@.contains(NUS_RX_UUID) && uuids@.contains(NUS_TX_UUID) ==> action is Attach
        }),
{
    lemma_first_index(uuids@, NUS_RX_UUID);
    lemma_first_index(uuids@, NUS_TX_UUID);
    assert(uuids.len() == uuids@.len());
}

/// A worker that pumps frames over a characteristic.
#[derive(Debug, Clone, Copy, PartialEq, Eq, Structural)]
pub enum Worker {
    /// Of an earlier link.
    Earlier,
    Reading { tx: usize },
    Writing { rx: usize },
}

/// What attaching a link acts on.
pub struct Endpoint {
    pub workers: Seq<Worker>,
    pub interface: Option<LinkState>,
    /// The device was asked to connect.
    pub contacted: bool,
}

impl Endpoint {
    /// The endpoint once an action was performed.
    pub open spec fn performed(self, action: ConnectAction) -> Endpoint {
        match action {
            ConnectAction::StopWorkers => Endpoint { workers: Seq::empty(), ..self },
            ConnectAction::ConnectDevice => Endpoint { contacted: true, ..self },
            ConnectAction::Attach { rx, tx, state } => Endpoint {
                workers: self.workers.push(Worker::Reading { tx }).push(Worker::Writing { rx }),
                interface: Some(state),
                ..self
            },
            _ => self,
        }
    }
}

/// A link being attached and what it acts on.
pub struct Attempt {
    pub connecting: Connecting,
    pub endpoint: Endpoint,
}

/// Where attaching has got to after some inputs, each new action performed once.
pub open spec fn attempt(before: Endpoint, inputs: Seq<ConnectInput>) -> Attempt
    decreases inputs.len(),
{
    if inputs.len() == 0 {
        Attempt {
            connecting: Connecting { doing: ConnectAction::StopWorkers },
            endpoint: before.performed(ConnectAction::StopWorkers),
        }
    } else {
        let earlier = attempt(before, inputs.drop_last());
        let action = earlier.connecting.after(inputs.last());
        Attempt {
            connecting: Connecting { doing: action },
            endpoint: if action == earlier.connecting.doing {
                earlier.endpoint
            } else {
                earlier.endpoint.performed(action)
            },
        }
    }
}

/// Attaching is all or nothing. Every earlier worker is stopped. With success
/// exactly the two new workers run and the interface is up, on the daemon's net
/// with the daemon as its central node. Until then, and with failure, no worker
/// runs and the interface is as it was. An interface that is up already makes
/// attaching fail before the device is asked to connect.
pub proof fn law_attaching_is_all_or_nothing(before: Endpoint, inputs: Seq<ConnectInput>)
    requires
        !before.contacted,
        forall|i: int|
            0 <= i < inputs.len() ==> (#[trigger] inputs[i] matches ConnectInput::Interface(state)
                ==> state == before.interface),
    ensures
        ({
            let now = attempt(before, inputs);
            &&& now.connecting.doing matches ConnectAction::Attach { rx, tx, .. } ==> {
                &&& now.endpoint.workers == seq![Worker::Reading { tx }, Worker::Writing { rx }]
                &&& now.endpoint.interface == Some(
                    LinkState::Active { net_id: NET_ID, central: true },
                )
                &&& is_down(before.interface)
            }
            &&& !(now.connecting.doing is Attach) ==> now.endpoint.workers.len() == 0
                && now.endpoint.interface == before.interface
            &&& !is_down(before.interface) ==> {
                &&& !now.endpoint.contacted
                &&& now.connecting.doing is StopWorkers || now.connecting.doing
                    == ConnectAction::Fail(ConnectError::NotDown)
            }
        }),
    decreases inputs.len(),
{
    if inputs.len() > 0 {
        let earlier_inputs = inputs.drop_last();
        assert forall|i: int| 0 <= i < earlier_inputs.len() implies (
        #[trigger] earlier_inputs[i] matches ConnectInput::Interface(state) ==> state
            == before.interface) by {
            assert(earlier_inputs[i] == inputs[i]);
        }
        law_attaching_is_all_or_nothing(before, earlier_inputs);
        assert(inputs[inputs.len() - 1] == inputs.last());
        let now = attempt(before, inputs);
        if now.connecting.doing is Attach {
            assert(now.endpoint.workers =~= seq![
                Worker::Reading { tx: now.connecting.doing->tx },
                Worker::Writing { rx: now.connecting.doing->rx },
            ]);
        }
    }
}

/// What a notification stream yields.
pub enum Received {
    Frame,
    Failed,
    Ended,
}

/// What to do with the link then.
#[derive(Debug, Clone, Copy, PartialEq, Eq, Structural)]
pub enum RxAction {
    /// Hand the frame to the network stack and go on.
    Process,
    /// Take the interface down and stop.
    TakeDown,
}

/// What becomes of what a notification stream yielded.
pub open spec fn reaction_to(item: Received) -> RxAction {
    if item is Frame {
        RxAction::Process
    } else {
        RxAction::TakeDown
    }
}

/// Decide on what a notification stream yielded: frames go to the stack, and
/// anything else ends the link.
pub fn on_received(item: Received) -> (action: RxAction)
    ensures
        action == if item is Frame {
            RxAction::Process
        } else {
            RxAction::TakeDown
        },
        action == reaction_to(item),
{
    match item {
        Received::Frame => RxAction::Process,
        Received::Failed => RxAction::TakeDown,
        Received::Ended => RxAction::TakeDown,
    }
}

/// Frames keep the link up, and nothing else does: a stream that failed or ended
/// takes it down.
pub proof fn law_links_live_by_their_frames()
    ensures
        reaction_to(Received::Frame) == RxAction::Process,
        reaction_to(Received::Failed) == RxAction::TakeDown,
        reaction_to(Received::Ended) == RxAction::TakeDown,
{
}

/// Of the connected devices with the instrument's name the first one is adopted.
pub proof fn law_the_first_instrument_is_adopted(
    names: Vec<Option<String>>,
    wanted: Seq<char>,
    index: int,
)
    requires
        0 <= index < names@.len(),
        names@[index] is Some && names@[index]->0@ == wanted,
        forall|i: int|
            0 <= i < index ==> !((#[trigger] names@[i]) is Some && names@[i]->0@ == wanted),
    ensures
        (Search { doing: SearchAction::ListConnected }).after(
            SearchInput::Connected(names),
            wanted,
        ) == SearchAction::Adopt(index as usize),
{
    lemma_first_named(names@, wanted);
    let first = first_named(names@, wanted);
    assert(!(first is None)) by {
        if first is None {
            assert(!(names@[index] is Some && names@[index]->0@ == wanted));
        }
    }
    if first->0 < index {
        assert(!(names@[first->0] is Some && names@[first->0]->0@ == wanted));
    } else if first->0 > index {
        assert(!(names@[index] is Some && names@[index]->0@ == wanted));
    }
}

/// A scan ends with the first advertisement of the instrument's name, passes over
/// all others, and fails when it ends or takes too long. What fails or succeeds
/// stays so.
pub proof fn law_scans_wait_for_the_instrument(
    search: Search,
    name: Option<String>,
    wanted: Seq<char>,
    input: SearchInput,
)
    ensures
        search.doing is AwaitAdvertisement ==> {
            let action = search.after(SearchInput::Advertised(name), wanted);
            &&& name is Some && name->0@ == wanted <==> action is UseAdvertised
            &&& !(name is Some && name->0@ == wanted) <==> action is AwaitAdvertisement
            &&& search.after(SearchInput::ScanEnded, wanted) == SearchAction::Fail(
                SearchError::ScanEnded,
            )
            &&& search.after(SearchInput::TimedOut, wanted) == SearchAction::Fail(
                SearchError::TimedOut,
            )
        },
        search.doing is GetAdapter ==> {
            &&& search.after(SearchInput::Adapter(true), wanted) is AwaitAvailable
            &&& search.after(SearchInput::Adapter(false), wanted) == SearchAction::Fail(
                SearchError::NoAdapter,
            )
        },
        search.doing is AwaitAvailable ==> {
            &&& search.after(SearchInput::Available(true), wanted) is ListConnected
            &&& search.after(SearchInput::Available(false), wanted) == SearchAction::Fail(
                SearchError::RadioFailed,
            )
        },
        search.doing is Scan ==> {
            &&& search.after(SearchInput::Scanning(true), wanted) is AwaitAdvertisement
            &&& search.after(SearchInput::Scanning(false), wanted) == SearchAction::Fail(
                SearchError::RadioFailed,
            )
        },
        search.doing is Fail || search.doing is UseAdvertised || search.doing is Adopt
            ==> search.after(input, wanted) == search.doing,
{
}

/// A link is attached step by step, and each step that fails is told by what went
/// wrong: the interface, the radio, the device, its services, the service, its
/// characteristics.
pub proof fn law_attaching_goes_step_by_step(
    connecting: Connecting,
    state: Option<LinkState>,
    count: usize,
)
    requires
        state is None || state == Some(LinkState::Down),
        count > 0,
    ensures
        connecting.doing is StopWorkers ==> connecting.after(ConnectInput::Interface(state))
            is GetAdapter,
        connecting.doing is GetAdapter ==> connecting.after(ConnectInput::Adapter(true))
            is ConnectDevice && connecting.after(ConnectInput::Adapter(false))
            == ConnectAction::Fail(ConnectError::NoAdapter),
        connecting.doing is ConnectDevice ==> connecting.after(ConnectInput::Connected(true))
            is DiscoverServices && connecting.after(ConnectInput::Connected(false))
            == ConnectAction::Fail(ConnectError::ConnectFailed),
        connecting.doing is DiscoverServices ==> {
            &&& connecting.after(ConnectInput::Services(Some(count))) is DiscoverCharacteristics
            &&& connecting.after(ConnectInput::Services(Some(0))) == ConnectAction::Fail(
                ConnectError::NoService,
            )
            &&& connecting.after(ConnectInput::Services(None)) == ConnectAction::Fail(
                ConnectError::ServiceDiscoveryFailed,
            )
        },
        connecting.doing is DiscoverCharacteristics ==> connecting.after(
            ConnectInput::Characteristics(None),
        ) == ConnectAction::Fail(ConnectError::CharacteristicDiscoveryFailed),
{
}

/// The service's characteristics are known by their identifiers: without the one
/// the host writes to, or the one it reads from, the link is refused for want of
/// it. With both, frames are written to the first and read from the second, on a
/// net with a number, the daemon being its central node.
pub proof fn law_characteristics_are_known_by_name(uuids: Vec<u128>)
    ensures
        ({
            let writes: u128 = 0x6e400002_b5a3_f393_e0a9_e50e24dcca9e;
            let reads: u128 = 0x6e400003_b5a3_f393_e0a9_e50e24dcca9e;
            let action = (Connecting { doing: ConnectAction::DiscoverCharacteristics }).after(
                ConnectInput::Characteristics(Some(uuids)),
            );
            &&& !uuids@.contains(writes) <==> action == ConnectAction::Fail(ConnectError::RxMissing)
            &&& uuids@.contains(writes) && !uuids@.contains(reads) <==> action
                == ConnectAction::Fail(ConnectError::TxMissing)
            &&& uuids@.contains(writes) && uuids@.contains(reads) <==> action is Attach
            &&& action matches ConnectAction::Attach { rx, tx, state } ==> uuids@[rx as int]
                == writes && uuids@[tx as int] == reads && (state matches LinkState::Active {
                net_id,
                central,
            } && net_id != 0 && central)
        }),
{
    lemma_first_index(uuids@, NUS_RX_UUID);
    lemma_first_index(uuids@, NUS_TX_UUID);
    assert(uuids.len() == uuids@.len());
    if first_index(uuids@, NUS_RX_UUID) is Some {
        assert(uuids@.contains(NUS_RX_UUID));
    }
    if first_index(uuids@, NUS_TX_UUID) is Some {
        assert(uuids@.contains(NUS_TX_UUID));
    }
}

/// An interface that is up or on its way is not attached to: only one that is down
/// or not there at all is.
pub proof fn law_only_what_is_down_is_attached_to(net_id: u16, central: bool)
    ensures
        ({
            let start = Connecting { doing: ConnectAction::StopWorkers };
            let refused = ConnectAction::Fail(ConnectError::NotDown);
            &&& start.after(ConnectInput::Interface(None)) is GetAdapter
            &&& start.after(ConnectInput::Interface(Some(LinkState::Down))) is GetAdapter
            &&& start.after(ConnectInput::Interface(Some(LinkState::Inactive))) == refused
            &&& start.after(ConnectInput::Interface(Some(LinkState::ActiveLocal))) == refused
            &&& start.after(
                ConnectInput::Interface(Some(LinkState::Active { net_id, central })),
            ) == refused
        }),
        is_down(None),
        is_down(Some(LinkState::Down)),
        !is_down(Some(LinkState::Inactive)),
        !is_down(Some(LinkState::ActiveLocal)),
        !is_down(Some(LinkState::Active { net_id, central })),
{
}

} // verus!
