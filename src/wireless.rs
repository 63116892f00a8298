//! The attribute server as a state machine.
//!
//! The server consumes the stack's events one at a time and answers each with
//! the imperative calls the stack must then make. Whoever drives it holds it
//! under one lock, feeds it events from the stack's callback context, and runs
//! the indication protocol from the application thread: `indicate` stores the
//! new value, then `indication_step` says, connection by connection in
//! registry order, whether to wait for a confirmation, to send, or to stop.

use vstd::prelude::*;
use crate::event::{commands_view, Command, CommandView, GapEvent, GattsEvent, ServerError};
use crate::schema::{
    handle_count, has_descriptor, has_primary, has_service, initial_value, is_first_descriptor,
    is_first_primary, lemma_first_descriptor_unique, lemma_first_primary_unique, primary_uuid,
    services_fit, CharacteristicDescriptor, PeerAddr, Permissions, ServerConfiguration,
    ServiceDescriptor, Status, Uuid,
};

verus! {

/// The application identity that the server registers with the stack.
pub const APP_ID: u16 = 0;

/// Largest number of peers tracked at once. The in-flight marker is global to
/// the server, which is only sound for a single peer.
pub const MAX_CONNECTIONS: usize = 1;

/// Advertising flag: general discoverable mode.
pub const ADV_FLAG: u8 = 2;

/// The 16-bit uuid of the client characteristic configuration descriptor.
pub const CCCD_UUID: u16 = 0x2902;

/// Connection parameters requested from each tracked peer, tuned for quick
/// delivery of acknowledgements.
pub const MIN_INTERVAL_MS: u32 = 10;
pub const MAX_INTERVAL_MS: u32 = 20;
pub const LATENCY_MS: u32 = 0;
pub const TIMEOUT_MS: u32 = 400;

/// A tracked peer and the connection handle the stack gave it.
#[derive(Clone, Copy, Debug, PartialEq, Eq, Structural)]
pub struct Connection {
    pub peer: PeerAddr,
    pub conn_id: u16,
}

pub struct CharacteristicView {
    pub uuid: Uuid,
    pub handle: u16,
    pub value: Seq<u8>,
}

pub struct ServiceView {
    pub uuid: Uuid,
    pub handle: u16,
    pub characteristics: Seq<CharacteristicView>,
}

/// The server's state: the schema it was built with, the interface the stack
/// assigned, the registry of tracked peers, the runtime attribute table, and
/// the connection whose confirmation is awaited, if any.
pub struct ServerView {
    pub schema: ServerConfiguration,
    pub interface: Option<u8>,
    pub connections: Seq<Connection>,
    pub services: Seq<ServiceView>,
    pub awaiting: Option<Connection>,
}

impl ServerView {
    /// The registry is within its bound, and the handles of services and of
    /// characteristics are each distinct.
    pub open spec fn wf(self) -> bool {
        &&& self.connections.len() <= MAX_CONNECTIONS
        &&& forall|a: int, b: int|
            0 <= a < self.services.len() && 0 <= b < self.services.len() && a != b
                ==> (#[trigger] self.services[a]).handle != (#[trigger] self.services[b]).handle
        &&& forall|a: int, i: int, b: int, j: int|
            valid_position(self.services, a, i) && valid_position(self.services, b, j) && (a != b
                || i != j) ==> (#[trigger] self.services[a].characteristics[i]).handle
                != (#[trigger] self.services[b].characteristics[j]).handle
    }
}

pub open spec fn valid_position(services: Seq<ServiceView>, i: int, j: int) -> bool {
    0 <= i < services.len() && 0 <= j < services[i].characteristics.len()
}

pub open spec fn has_service_handle(services: Seq<ServiceView>, h: u16) -> bool {
    exists|i: int| 0 <= i < services.len() && (#[trigger] services[i]).handle == h
}

/// The service with handle `h` (unique in a well-formed state).
pub open spec fn service_index(services: Seq<ServiceView>, h: u16) -> int {
    choose|i: int| 0 <= i < services.len() && (#[trigger] services[i]).handle == h
}

pub open spec fn has_handle(services: Seq<ServiceView>, h: u16) -> bool {
    exists|i: int, j: int|
        valid_position(services, i, j) && (#[trigger] services[i].characteristics[j]).handle == h
}

/// The value stored under characteristic handle `h` (unique in a
/// well-formed state).
pub open spec fn value_at(services: Seq<ServiceView>, h: u16) -> Seq<u8> {
    let (i, j) = choose|i: int, j: int|
        valid_position(services, i, j) && (#[trigger] services[i].characteristics[j]).handle == h;
    services[i].characteristics[j].value
}

/// Characteristic `j` of service `i` is the first in table order with uuid `u`.
pub open spec fn is_first_position(services: Seq<ServiceView>, u: Uuid, i: int, j: int) -> bool {
    &&& valid_position(services, i, j)
    &&& services[i].characteristics[j].uuid == u
    &&& forall|k: int, l: int|
        valid_position(services, k, l) && k < i ==> (#[trigger] services[k].characteristics[l]).uuid
            != u
    &&& forall|l: int| 0 <= l < j ==> (#[trigger] services[i].characteristics[l]).uuid != u
}

pub open spec fn has_characteristic(services: Seq<ServiceView>, u: Uuid) -> bool {
    exists|i: int, j: int|
        valid_position(services, i, j) && (#[trigger] services[i].characteristics[j]).uuid == u
}

pub open spec fn first_position(services: Seq<ServiceView>, u: Uuid) -> (int, int) {
    choose|i: int, j: int| is_first_position(services, u, i, j)
}

/// The table with the value of characteristic `j` of service `i` replaced.
pub open spec fn with_value(services: Seq<ServiceView>, i: int, j: int, v: Seq<u8>) -> Seq<ServiceView> {
    let s = services[i];
    let c = s.characteristics[j];
    services.update(
        i,
        ServiceView {
            characteristics: s.characteristics.update(j, CharacteristicView { value: v, ..c }),
            ..s
        },
    )
}

pub proof fn lemma_first_position_unique(services: Seq<ServiceView>, u: Uuid, i: int, j: int, k: int, l: int)
    requires
        is_first_position(services, u, i, j),
        is_first_position(services, u, k, l),
    ensures
        i == k && j == l,
{
    if i < k {
        assert(services[i].characteristics[j].uuid == u);
    } else if k < i {
        assert(services[k].characteristics[l].uuid == u);
    }
}

proof fn lemma_first_in(chars: Seq<CharacteristicView>, u: Uuid, l: int) -> (r: int)
    requires
        0 <= l <= chars.len(),
        forall|m: int| 0 <= m < l ==> (#[trigger] chars[m]).uuid != u,
        exists|m: int| 0 <= m < chars.len() && (#[trigger] chars[m]).uuid == u,
    ensures
        0 <= r < chars.len(),
        chars[r].uuid == u,
        forall|m: int| 0 <= m < r ==> (#[trigger] chars[m]).uuid != u,
    decreases chars.len() - l,
{
    if l < chars.len() && chars[l].uuid == u {
        l
    } else {
        if l == chars.len() {
            let m = choose|m: int| 0 <= m < chars.len() && (#[trigger] chars[m]).uuid == u;
            assert(chars[m].uuid != u);
        }
        lemma_first_in(chars, u, l + 1)
    }
}

proof fn lemma_first_from(services: Seq<ServiceView>, u: Uuid, i: int) -> (r: (int, int))
    requires
        0 <= i <= services.len(),
        forall|k: int, l: int|
            valid_position(services, k, l) && k < i ==> (#[trigger] services[k].characteristics[l]).uuid != u,
        has_characteristic(services, u),
    ensures
        is_first_position(services, u, r.0, r.1),
    decreases services.len() - i,
{
    let (a, b) = choose|a: int, b: int|
        valid_position(services, a, b) && (#[trigger] services[a].characteristics[b]).uuid == u;
    if i == services.len() {
        assert(services[a].characteristics[b].uuid != u);
    }
    let chars = services[i].characteristics;
    if exists|m: int| 0 <= m < chars.len() && (#[trigger] chars[m]).uuid == u {
        let l = lemma_first_in(chars, u, 0);
        (i, l)
    } else {
        assert forall|k: int, l: int|
            valid_position(services, k, l) && k < i + 1 implies (#[trigger] services[k].characteristics[l]).uuid != u by {
            if k == i {
                assert(chars[l] == services[k].characteristics[l]);
            }
        }
        lemma_first_from(services, u, i + 1)
    }
}

/// A uuid present in the table has a first position.
pub proof fn lemma_first_position_exists(services: Seq<ServiceView>, u: Uuid)
    requires
        has_characteristic(services, u),
    ensures
        is_first_position(services, u, first_position(services, u).0, first_position(services, u).1),
{
    let (i, j) = lemma_first_from(services, u, 0);
    assert(is_first_position(services, u, i, j));
}

pub open spec fn create_service_command(intf: u8, s: ServiceDescriptor) -> CommandView {
    CommandView::CreateService {
        interface: intf,
        uuid: s.uuid,
        is_primary: s.is_primary,
        num_handles: handle_count(s) as u16,
    }
}

pub open spec fn advertising_command(schema: ServerConfiguration) -> CommandView {
    CommandView::ConfigureAdvertising {
        include_name: true,
        flag: ADV_FLAG,
        service_uuid: primary_uuid(schema.services@),
    }
}

/// On registration: name the device, configure the advertisement, and ask for
/// one service per schema service, in order.
pub open spec fn registration_commands(schema: ServerConfiguration, intf: u8) -> Seq<CommandView> {
    seq![CommandView::SetDeviceName { name: schema.name@ }, advertising_command(schema)]
        + schema.services@.map_values(|s: ServiceDescriptor| create_service_command(intf, s))
}

pub open spec fn add_characteristic_command(h: u16, c: CharacteristicDescriptor) -> CommandView {
    CommandView::AddCharacteristic {
        service_handle: h,
        uuid: c.uuid,
        permissions: c.permissions,
        properties: c.properties,
        max_len: c.max_len,
        value: c.data@,
    }
}

/// One add-characteristic request, scoped to service handle `h`, for each
/// characteristic of each schema service with uuid `u`, in schema order.
pub open spec fn characteristic_commands(services: Seq<ServiceDescriptor>, h: u16, u: Uuid) -> Seq<CommandView>
    decreases services.len(),
{
    if services.len() == 0 {
        Seq::empty()
    } else {
        let last = services.last();
        characteristic_commands(services.drop_last(), h, u) + if last.uuid == u {
            last.characteristics@.map_values(|c: CharacteristicDescriptor| add_characteristic_command(h, c))
        } else {
            Seq::empty()
        }
    }
}

pub open spec fn descriptor_command(h: u16) -> CommandView {
    CommandView::AddDescriptor {
        service_handle: h,
        uuid: Uuid::Uuid16(CCCD_UUID),
        permissions: Permissions { read: true, write: true },
    }
}

pub open spec fn connection_params_command(addr: PeerAddr) -> CommandView {
    CommandView::SetConnectionParams {
        addr,
        min_interval_ms: MIN_INTERVAL_MS,
        max_interval_ms: MAX_INTERVAL_MS,
        latency_ms: LATENCY_MS,
        timeout_ms: TIMEOUT_MS,
    }
}

pub open spec fn on_service_registered(s: ServerView, intf: u8, status: Status, app_id: u16) -> Result<(ServerView, Seq<CommandView>), ServerError> {
    if let Status::Failure(code) = status {
        Err(ServerError::RegistrationFailed(code))
    } else if app_id != APP_ID {
        Err(ServerError::UnexpectedApplication(app_id))
    } else if s.interface is Some {
        Err(ServerError::AlreadyRegistered)
    } else if !has_primary(s.schema.services@) {
        Err(ServerError::NoPrimaryService)
    } else if !services_fit(s.schema.services@) {
        Err(ServerError::ServiceTooLarge)
    } else {
        Ok((ServerView { interface: Some(intf), ..s }, registration_commands(s.schema, intf)))
    }
}

pub open spec fn on_service_created(s: ServerView, status: Status, h: u16, u: Uuid) -> Result<(ServerView, Seq<CommandView>), ServerError> {
    if let Status::Failure(code) = status {
        Err(ServerError::ServiceCreationFailed(code))
    } else if !has_service(s.schema.services@, u) {
        Err(ServerError::UnknownService(u))
    } else if has_service_handle(s.services, h) {
        Err(ServerError::DuplicateServiceHandle(h))
    } else {
        let created = ServiceView { uuid: u, handle: h, characteristics: Seq::empty() };
        Ok((
            ServerView { services: s.services.push(created), ..s },
            seq![CommandView::StartService { service_handle: h }]
                + characteristic_commands(s.schema.services@, h, u),
        ))
    }
}

pub open spec fn on_characteristic_added(s: ServerView, status: Status, attr: u16, sh: u16, u: Uuid) -> Result<(ServerView, Seq<CommandView>), ServerError> {
    if let Status::Failure(code) = status {
        Err(ServerError::CharacteristicFailed(code))
    } else if !has_service_handle(s.services, sh) {
        Err(ServerError::UnknownServiceHandle(sh))
    } else if !has_descriptor(s.schema.services@, u) {
        Err(ServerError::UnknownCharacteristic(u))
    } else if has_handle(s.services, attr) {
        Err(ServerError::DuplicateHandle(attr))
    } else {
        let i = service_index(s.services, sh);
        let added = CharacteristicView {
            uuid: u,
            handle: attr,
            value: initial_value(s.schema.services@, u),
        };
        let owner = ServiceView {
            characteristics: s.services[i].characteristics.push(added),
            ..s.services[i]
        };
        Ok((ServerView { services: s.services.update(i, owner), ..s }, seq![descriptor_command(sh)]))
    }
}

/// The registry after a peer connects: it is tracked only below the bound.
pub open spec fn connect_registry(reg: Seq<Connection>, c: Connection) -> Seq<Connection> {
    if reg.len() < MAX_CONNECTIONS {
        reg.push(c)
    } else {
        reg
    }
}

pub open spec fn is_other_peer(addr: PeerAddr) -> spec_fn(Connection) -> bool {
    |c: Connection| c.peer != addr
}

/// The registry after a peer disconnects: every entry for it is removed.
/// The in-flight marker is left as it is, even when it names that peer: an
/// indication then waits for a confirmation that cannot come. This stall is
/// a known limitation, kept rather than guessed around.
pub open spec fn disconnect_registry(reg: Seq<Connection>, addr: PeerAddr) -> Seq<Connection> {
    reg.filter(is_other_peer(addr))
}

pub open spec fn on_peer_connected(s: ServerView, conn_id: u16, addr: PeerAddr) -> Result<(ServerView, Seq<CommandView>), ServerError> {
    let c = Connection { peer: addr, conn_id };
    Ok((
        ServerView { connections: connect_registry(s.connections, c), ..s },
        if s.connections.len() < MAX_CONNECTIONS {
            seq![connection_params_command(addr)]
        } else {
            Seq::empty()
        },
    ))
}

pub open spec fn on_peer_disconnected(s: ServerView, addr: PeerAddr) -> Result<(ServerView, Seq<CommandView>), ServerError> {
    Ok((ServerView { connections: disconnect_registry(s.connections, addr), ..s }, Seq::empty()))
}

/// A confirmation clears the marker when it comes on the awaited connection.
pub open spec fn on_confirm(s: ServerView, status: Status, conn_id: u16) -> Result<(ServerView, Seq<CommandView>), ServerError> {
    if let Status::Failure(code) = status {
        Err(ServerError::ConfirmationFailed(code))
    } else if s.awaiting is Some && s.awaiting->0.conn_id == conn_id {
        Ok((ServerView { awaiting: None, ..s }, Seq::empty()))
    } else {
        Err(ServerError::UnexpectedConfirmation(conn_id))
    }
}

/// A read is answered with the value stored under the handle.
pub open spec fn on_read(s: ServerView, conn_id: u16, trans_id: u32, h: u16) -> Result<(ServerView, Seq<CommandView>), ServerError> {
    if !has_handle(s.services, h) {
        Err(ServerError::UnknownHandle(h))
    } else if s.interface is None {
        Err(ServerError::NotRegistered)
    } else {
        Ok((
            s,
            seq![
                CommandView::SendResponse {
                    interface: s.interface->0,
                    conn_id,
                    trans_id,
                    value: value_at(s.services, h),
                },
            ],
        ))
    }
}

/// What one attribute-server event does: the next state and the calls to
/// make, or the error.
pub open spec fn gatts_transition(s: ServerView, intf: u8, e: GattsEvent) -> Result<(ServerView, Seq<CommandView>), ServerError> {
    match e {
        GattsEvent::ServiceRegistered { status, app_id } => on_service_registered(s, intf, status, app_id),
        GattsEvent::ServiceCreated { status, service_handle, service_uuid } =>
            on_service_created(s, status, service_handle, service_uuid),
        GattsEvent::CharacteristicAdded { status, attr_handle, service_handle, char_uuid } =>
            on_characteristic_added(s, status, attr_handle, service_handle, char_uuid),
        GattsEvent::PeerConnected { conn_id, addr } => on_peer_connected(s, conn_id, addr),
        GattsEvent::PeerDisconnected { addr } => on_peer_disconnected(s, addr),
        GattsEvent::Confirm { status, conn_id } => on_confirm(s, status, conn_id),
        GattsEvent::Read { conn_id, trans_id, handle } => on_read(s, conn_id, trans_id, handle),
        GattsEvent::Other => Ok((s, Seq::empty())),
    }
}

/// What one advertising event asks for.
pub open spec fn gap_transition(e: GapEvent) -> Result<Seq<CommandView>, ServerError> {
    match e {
        GapEvent::AdvertisingConfigured(Status::Failure(code)) => Err(ServerError::AdvertisingFailed(code)),
        GapEvent::AdvertisingConfigured(Status::Success) => Ok(seq![CommandView::StartAdvertising]),
        GapEvent::Other => Ok(Seq::empty()),
    }
}

/// A step result `r` of the exec server, taken from `before` to `after`,
/// is the one that `expected` describes; on an error the state is unchanged.
pub open spec fn step_is(
    before: ServerView,
    after: ServerView,
    r: Result<Vec<Command>, ServerError>,
    expected: Result<(ServerView, Seq<CommandView>), ServerError>,
) -> bool {
    match r {
        Ok(cmds) => expected == Ok::<(ServerView, Seq<CommandView>), ServerError>((after, commands_view(cmds@))),
        Err(e) => expected == Err::<(ServerView, Seq<CommandView>), ServerError>(e) && after == before,
    }
}

/// What the publisher does next for an indication in progress.
#[derive(Clone, Copy, Debug, PartialEq, Eq, Structural)]
pub enum IndicationStep {
    /// Send the indication on connection `conn_id`, then record it as sent.
    Send { interface: u8, conn_id: u16, handle: u16 },
    /// Another indication is still unconfirmed: wait for its confirmation.
    Wait,
    /// Every tracked connection has been reached.
    Done,
}

/// `indicate(u, v)`: the first characteristic with uuid `u` takes value `v`,
/// and its handle is the one indicated.
pub open spec fn indicate_spec(s: ServerView, u: Uuid, v: Seq<u8>) -> Result<(ServerView, u16), ServerError> {
    if !has_characteristic(s.services, u) {
        Err(ServerError::NoSuchCharacteristic(u))
    } else {
        let (i, j) = first_position(s.services, u);
        Ok((ServerView { services: with_value(s.services, i, j, v), ..s }, s.services[i].characteristics[j].handle))
    }
}

/// The next step of an indication of `handle` whose next target is
/// registry position `next`: nothing is sent while any indication is
/// unconfirmed.
pub open spec fn indication_step_spec(s: ServerView, next: nat, handle: u16) -> Result<IndicationStep, ServerError> {
    if next >= s.connections.len() {
        Ok(IndicationStep::Done)
    } else if s.awaiting is Some {
        Ok(IndicationStep::Wait)
    } else if s.interface is None {
        Err(ServerError::NotRegistered)
    } else {
        Ok(IndicationStep::Send { interface: s.interface->0, conn_id: s.connections[next as int].conn_id, handle })
    }
}

/// An indication in progress: the handle it targets, the value it pushes,
/// and the registry position of the next connection to reach.
pub struct Indication {
    handle: u16,
    value: Vec<u8>,
    next: usize,
}

impl Indication {
    pub closed spec fn spec_handle(&self) -> u16 {
        self.handle
    }

    pub closed spec fn spec_value(&self) -> Seq<u8> {
        self.value@
    }

    pub closed spec fn spec_next(&self) -> nat {
        self.next as nat
    }

    pub fn handle(&self) -> (r: u16)
        ensures
            r == self.spec_handle(),
    {
        self.handle
    }

    pub fn value(&self) -> (r: &[u8])
        ensures
            r@ == self.spec_value(),
    {
        self.value.as_slice()
    }

    pub fn next(&self) -> (r: usize)
        ensures
            r == self.spec_next(),
    {
        self.next
    }
}

struct Characteristic {
    uuid: Uuid,
    handle: u16,
    data: Vec<u8>,
}

impl View for Characteristic {
    type V = CharacteristicView;

    closed spec fn view(&self) -> CharacteristicView {
        CharacteristicView { uuid: self.uuid, handle: self.handle, value: self.data@ }
    }
}

struct Service {
    uuid: Uuid,
    handle: u16,
    characteristics: Vec<Characteristic>,
}

impl View for Service {
    type V = ServiceView;

    closed spec fn view(&self) -> ServiceView {
        ServiceView {
            uuid: self.uuid,
            handle: self.handle,
            characteristics: self.characteristics@.map_values(|c: Characteristic| c@),
        }
    }
}

/// The attribute server's state. See the module documentation for how it is
/// driven.
pub struct Server {
    config: ServerConfiguration,
    interface: Option<u8>,
    connections: Vec<Connection>,
    services: Vec<Service>,
    awaiting: Option<Connection>,
}

impl View for Server {
    type V = ServerView;

    closed spec fn view(&self) -> ServerView {
        ServerView {
            schema: self.config,
            interface: self.interface,
            connections: self.connections@,
            services: self.services@.map_values(|s: Service| s@),
            awaiting: self.awaiting,
        }
    }
}

/// The first service flagged primary.
fn find_primary(services: &Vec<ServiceDescriptor>) -> (r: Option<usize>)
    ensures
        match r {
            Some(i) => is_first_primary(services@, i as int),
            None => !has_primary(services@),
        },
{
    let mut i: usize = 0;
    while i < services.len()
        invariant
            i <= services@.len(),
            forall|k: int| 0 <= k < i ==> !(#[trigger] services@[k]).is_primary,
        decreases services@.len() - i,
    {
        if services[i].is_primary {
            return Some(i);
        }
        i += 1;
    }
    None
}

fn schema_has_service(services: &Vec<ServiceDescriptor>, u: Uuid) -> (r: bool)
    ensures
        r == has_service(services@, u),
{
    let mut i: usize = 0;
    while i < services.len()
        invariant
            i <= services@.len(),
            forall|k: int| 0 <= k < i ==> (#[trigger] services@[k]).uuid != u,
        decreases services@.len() - i,
    {
        if services[i].uuid == u {
            return true;
        }
        i += 1;
    }
    false
}

fn all_services_fit(services: &Vec<ServiceDescriptor>) -> (r: bool)
    ensures
        r == services_fit(services@),
{
    let mut i: usize = 0;
    while i < services.len()
        invariant
            i <= services@.len(),
            forall|k: int| 0 <= k < i ==> handle_count(#[trigger] services@[k]) <= u16::MAX,
        decreases services@.len() - i,
    {
        if services[i].characteristics.len() > 21844 {
            return false;
        }
        i += 1;
    }
    true
}

/// The first schema characteristic with uuid `u`.
fn find_descriptor(services: &Vec<ServiceDescriptor>, u: Uuid) -> (r: Option<(usize, usize)>)
    ensures
        match r {
            Some((i, j)) => is_first_descriptor(services@, u, i as int, j as int),
            None => !has_descriptor(services@, u),
        },
{
    let mut i: usize = 0;
    while i < services.len()
        invariant
            i <= services@.len(),
            forall|k: int, l: int|
                0 <= k < i && 0 <= l < services@[k].characteristics@.len()
                    ==> (#[trigger] services@[k].characteristics@[l]).uuid != u,
        decreases services@.len() - i,
    {
        let chars = &services[i].characteristics;
        let mut j: usize = 0;
        while j < chars.len()
            invariant
                i < services@.len(),
                *chars == services@[i as int].characteristics,
                j <= chars@.len(),
                forall|k: int, l: int|
                    0 <= k < i && 0 <= l < services@[k].characteristics@.len()
                        ==> (#[trigger] services@[k].characteristics@[l]).uuid != u,
                forall|l: int| 0 <= l < j ==> (#[trigger] chars@[l]).uuid != u,
            decreases chars@.len() - j,
        {
            if chars[j].uuid == u {
                return Some((i, j));
            }
            j += 1;
        }
        i += 1;
    }
    None
}

impl Server {
    /// A server for `config`, with nothing registered, tracked or built yet.
    pub fn new(config: ServerConfiguration) -> (r: Self)
        ensures
            r@ == (ServerView {
                schema: config,
                interface: None,
                connections: Seq::empty(),
                services: Seq::empty(),
                awaiting: None,
            }),
            r@.wf(),
    {
        let r = Server {
            config,
            interface: None,
            connections: Vec::new(),
            services: Vec::new(),
            awaiting: None,
        };
        assert(r@.services =~= Seq::<ServiceView>::empty());
        r
    }

    fn service_registered(&mut self, intf: u8, status: Status, app_id: u16) -> (r: Result<Vec<Command>, ServerError>)
        requires
            old(self)@.wf(),
        ensures
            final(self)@.wf(),
            step_is(old(self)@, final(self)@, r, on_service_registered(old(self)@, intf, status, app_id)),
    {
        if let Status::Failure(code) = status {
            return Err(ServerError::RegistrationFailed(code));
        }
        if app_id != APP_ID {
            return Err(ServerError::UnexpectedApplication(app_id));
        }
        if self.interface.is_some() {
            return Err(ServerError::AlreadyRegistered);
        }
        let p = match find_primary(&self.config.services) {
            Some(p) => p,
            None => return Err(ServerError::NoPrimaryService),
        };
        if !all_services_fit(&self.config.services) {
            return Err(ServerError::ServiceTooLarge);
        }
        proof {
            let services = self.config.services@;
            let c = choose|i: int| is_first_primary(services, i);
            assert(is_first_primary(services, p as int));
            lemma_first_primary_unique(services, c, p as int);
        }
        let ghost expected = registration_commands(self.config, intf);
        let mut cmds: Vec<Command> = Vec::new();
        cmds.push(Command::SetDeviceName { name: self.config.name });
        cmds.push(
            Command::ConfigureAdvertising {
                include_name: true,
                flag: ADV_FLAG,
                service_uuid: self.config.services[p].uuid,
            },
        );
        let mut i: usize = 0;
        while i < self.config.services.len()
            invariant
                self@.wf(),
                self.interface is None,
                expected == registration_commands(self.config, intf),
                services_fit(self.config.services@),
                i <= self.config.services@.len(),
                cmds@.len() == 2 + i,
                forall|k: int| 0 <= k < 2 + i ==> (#[trigger] cmds@[k])@ == expected[k],
            decreases self.config.services@.len() - i,
        {
            let service = &self.config.services[i];
            assert(handle_count(self.config.services@[i as int]) <= u16::MAX);
            let num_handles = (1 + 3 * service.characteristics.len()) as u16;
            cmds.push(
                Command::CreateService {
                    interface: intf,
                    uuid: service.uuid,
                    is_primary: service.is_primary,
                    num_handles,
                },
            );
            i += 1;
        }
        assert(commands_view(cmds@) =~= expected);
        self.interface = Some(intf);
        Ok(cmds)
    }

    fn service_created(&mut self, status: Status, h: u16, u: Uuid) -> (r: Result<Vec<Command>, ServerError>)
        requires
            old(self)@.wf(),
        ensures
            final(self)@.wf(),
            step_is(old(self)@, final(self)@, r, on_service_created(old(self)@, status, h, u)),
    {
        if let Status::Failure(code) = status {
            return Err(ServerError::ServiceCreationFailed(code));
        }
        if !schema_has_service(&self.config.services, u) {
            return Err(ServerError::UnknownService(u));
        }
        if self.find_service(h).is_some() {
            return Err(ServerError::DuplicateServiceHandle(h));
        }
        let ghost before = self@;
        self.services.push(Service { uuid: u, handle: h, characteristics: Vec::new() });
        proof {
            let created = ServiceView { uuid: u, handle: h, characteristics: Seq::empty() };
            assert(self.services@.last()@.characteristics =~= Seq::<CharacteristicView>::empty());
            assert(self@.services =~= before.services.push(created));
        }
        let ghost schema = self.config.services@;
        let mut cmds: Vec<Command> = Vec::new();
        cmds.push(Command::StartService { service_handle: h });
        let mut i: usize = 0;
        while i < self.config.services.len()
            invariant
                self@.wf(),
                schema == self.config.services@,
                i <= schema.len(),
                commands_view(cmds@) == seq![CommandView::StartService { service_handle: h }]
                    + characteristic_commands(schema.take(i as int), h, u),
            decreases schema.len() - i,
        {
            assert(schema.take(i + 1).drop_last() =~= schema.take(i as int));
            let service = &self.config.services[i];
            if service.uuid == u {
                let ghost base = commands_view(cmds@);
                let chars = &service.characteristics;
                let mut j: usize = 0;
                while j < chars.len()
                    invariant
                        i < schema.len(),
                        *chars == schema[i as int].characteristics,
                        j <= chars@.len(),
                        commands_view(cmds@) == base + chars@.take(j as int).map_values(
                            |c: CharacteristicDescriptor| add_characteristic_command(h, c),
                        ),
                    decreases chars@.len() - j,
                {
                    let c = &chars[j];
                    let value = vstd::slice::slice_to_vec(c.data.as_slice());
                    let ghost prev = commands_view(cmds@);
                    cmds.push(
                        Command::AddCharacteristic {
                            service_handle: h,
                            uuid: c.uuid,
                            permissions: c.permissions,
                            properties: c.properties,
                            max_len: c.max_len,
                            value,
                        },
                    );
                    assert(commands_view(cmds@) =~= prev.push(add_characteristic_command(h, chars@[j as int])));
                    assert(chars@.take(j + 1) =~= chars@.take(j as int).push(chars@[j as int]));
                    assert(chars@.take(j + 1).map_values(|c: CharacteristicDescriptor| add_characteristic_command(h, c))
                        =~= chars@.take(j as int).map_values(|c: CharacteristicDescriptor| add_characteristic_command(h, c)).push(add_characteristic_command(h, chars@[j as int])));
                    j += 1;
                }
                assert(chars@.take(chars@.len() as int) =~= chars@);
            } else {
                assert(characteristic_commands(schema.take(i + 1), h, u) =~= characteristic_commands(schema.take(i as int), h, u));
            }
            i += 1;
        }
        assert(schema.take(schema.len() as int) =~= schema);
        Ok(cmds)
    }

    fn characteristic_added(&mut self, status: Status, attr: u16, sh: u16, u: Uuid) -> (r: Result<Vec<Command>, ServerError>)
        requires
            old(self)@.wf(),
        ensures
            final(self)@.wf(),
            step_is(old(self)@, final(self)@, r, on_characteristic_added(old(self)@, status, attr, sh, u)),
    {
        if let Status::Failure(code) = status {
            return Err(ServerError::CharacteristicFailed(code));
        }
        let si = match self.find_service(sh) {
            Some(i) => i,
            None => return Err(ServerError::UnknownServiceHandle(sh)),
        };
        let (di, dj) = match find_descriptor(&self.config.services, u) {
            Some(p) => p,
            None => return Err(ServerError::UnknownCharacteristic(u)),
        };
        if self.find_handle(attr).is_some() {
            return Err(ServerError::DuplicateHandle(attr));
        }
        let ghost before = self@;
        proof {
            let schema = self.config.services@;
            let (k, l) = choose|k: int, l: int| is_first_descriptor(schema, u, k, l);
            assert(is_first_descriptor(schema, u, di as int, dj as int));
            lemma_first_descriptor_unique(schema, u, k, l, di as int, dj as int);
            let c = service_index(before.services, sh);
            assert(0 <= si < before.services.len() && before.services[si as int].handle == sh);
        }
        let data = vstd::slice::slice_to_vec(self.config.services[di].characteristics[dj].data.as_slice());
        let added = Characteristic { uuid: u, handle: attr, data };
        self.services[si].characteristics.push(added);
        proof {
            let i = service_index(before.services, sh);
            assert(i == si);
            let owner = ServiceView {
                characteristics: before.services[i].characteristics.push(added@),
                ..before.services[i]
            };
            assert(self@.services[i].characteristics =~= owner.characteristics);
            assert(self@.services =~= before.services.update(i, owner));
            assert forall|a: int, x: int, b: int, y: int|
                valid_position(self@.services, a, x) && valid_position(self@.services, b, y) && (a != b
                    || x != y) implies (#[trigger] self@.services[a].characteristics[x]).handle
                    != (#[trigger] self@.services[b].characteristics[y]).handle by {
                let n = before.services[i].characteristics.len() as int;
                if a == i && x == n {
                    assert(valid_position(before.services, b, y));
                } else if b == i && y == n {
                    assert(valid_position(before.services, a, x));
                } else {
                    assert(valid_position(before.services, a, x));
                    assert(valid_position(before.services, b, y));
                }
            }
        }
        let mut cmds: Vec<Command> = Vec::new();
        cmds.push(
            Command::AddDescriptor {
                service_handle: sh,
                uuid: Uuid::Uuid16(CCCD_UUID),
                permissions: Permissions { read: true, write: true },
            },
        );
        assert(commands_view(cmds@) =~= seq![descriptor_command(sh)]);
        Ok(cmds)
    }

    fn peer_connected(&mut self, conn_id: u16, addr: PeerAddr) -> (r: Result<Vec<Command>, ServerError>)
        requires
            old(self)@.wf(),
        ensures
            final(self)@.wf(),
            step_is(old(self)@, final(self)@, r, on_peer_connected(old(self)@, conn_id, addr)),
    {
        let mut cmds: Vec<Command> = Vec::new();
        if self.connections.len() < MAX_CONNECTIONS {
            self.connections.push(Connection { peer: addr, conn_id });
            cmds.push(
                Command::SetConnectionParams {
                    addr,
                    min_interval_ms: MIN_INTERVAL_MS,
                    max_interval_ms: MAX_INTERVAL_MS,
                    latency_ms: LATENCY_MS,
                    timeout_ms: TIMEOUT_MS,
                },
            );
            assert(commands_view(cmds@) =~= seq![connection_params_command(addr)]);
        } else {
            assert(commands_view(cmds@) =~= Seq::<CommandView>::empty());
        }
        Ok(cmds)
    }

    fn peer_disconnected(&mut self, addr: PeerAddr) -> (r: Result<Vec<Command>, ServerError>)
        requires
            old(self)@.wf(),
        ensures
            final(self)@.wf(),
            step_is(old(self)@, final(self)@, r, on_peer_disconnected(old(self)@, addr)),
    {
        let ghost old_reg = self.connections@;
        let mut kept: Vec<Connection> = Vec::new();
        let mut i: usize = 0;
        while i < self.connections.len()
            invariant
                old_reg == self.connections@,
                i <= old_reg.len(),
                kept@ == old_reg.take(i as int).filter(is_other_peer(addr)),
            decreases old_reg.len() - i,
        {
            let c = self.connections[i];
            proof {
                assert(old_reg.take(i + 1) =~= old_reg.take(i as int).push(c));
                old_reg.take(i as int).lemma_filter_push(c, is_other_peer(addr));
            }
            if c.peer != addr {
                kept.push(c);
            }
            i += 1;
        }
        proof {
            assert(old_reg.take(old_reg.len() as int) =~= old_reg);
            old_reg.lemma_filter_len(is_other_peer(addr));
        }
        self.connections = kept;
        let cmds: Vec<Command> = Vec::new();
        assert(commands_view(cmds@) =~= Seq::<CommandView>::empty());
        Ok(cmds)
    }

    fn confirm(&mut self, status: Status, conn_id: u16) -> (r: Result<Vec<Command>, ServerError>)
        requires
            old(self)@.wf(),
        ensures
            final(self)@.wf(),
            step_is(old(self)@, final(self)@, r, on_confirm(old(self)@, status, conn_id)),
    {
        if let Status::Failure(code) = status {
            return Err(ServerError::ConfirmationFailed(code));
        }
        match self.awaiting {
            Some(c) => {
                if c.conn_id != conn_id {
                    return Err(ServerError::UnexpectedConfirmation(conn_id));
                }
            },
            None => return Err(ServerError::UnexpectedConfirmation(conn_id)),
        }
        self.awaiting = None;
        let cmds: Vec<Command> = Vec::new();
        assert(commands_view(cmds@) =~= Seq::<CommandView>::empty());
        Ok(cmds)
    }

    fn read(&self, conn_id: u16, trans_id: u32, h: u16) -> (r: Result<Vec<Command>, ServerError>)
        requires
            self@.wf(),
        ensures
            step_is(self@, self@, r, on_read(self@, conn_id, trans_id, h)),
    {
        let (i, j) = match self.find_handle(h) {
            Some(p) => p,
            None => return Err(ServerError::UnknownHandle(h)),
        };
        let intf = match self.interface {
            Some(intf) => intf,
            None => return Err(ServerError::NotRegistered),
        };
        proof {
            let (a, b) = choose|a: int, b: int|
                valid_position(self@.services, a, b)
                    && (#[trigger] self@.services[a].characteristics[b]).handle == h;
            assert(valid_position(self@.services, a, b));
            assert(self@.services[i as int].characteristics[j as int] == self.services@[i as int].characteristics@[j as int]@);
        }
        let value = vstd::slice::slice_to_vec(self.services[i].characteristics[j].data.as_slice());
        let mut cmds: Vec<Command> = Vec::new();
        cmds.push(Command::SendResponse { interface: intf, conn_id, trans_id, value });
        assert(commands_view(cmds@) =~= seq![
            CommandView::SendResponse {
                interface: intf,
                conn_id,
                trans_id,
                value: value_at(self@.services, h),
            },
        ]);
        Ok(cmds)
    }

    /// Handles one event of the attribute-server lifecycle or of peer I/O,
    /// and returns the calls that the stack must then make, in order. On an
    /// error the state is unchanged; each error is a setup failure or a
    /// protocol violation, fatal to the server.
    pub fn handle_gatts_event(&mut self, gatt_intf: u8, event: GattsEvent) -> (r: Result<Vec<Command>, ServerError>)
        requires
            old(self)@.wf(),
        ensures
            final(self)@.wf(),
            step_is(old(self)@, final(self)@, r, gatts_transition(old(self)@, gatt_intf, event)),
    {
        match event {
            GattsEvent::ServiceRegistered { status, app_id } => self.service_registered(gatt_intf, status, app_id),
            GattsEvent::ServiceCreated { status, service_handle, service_uuid } =>
                self.service_created(status, service_handle, service_uuid),
            GattsEvent::CharacteristicAdded { status, attr_handle, service_handle, char_uuid } =>
                self.characteristic_added(status, attr_handle, service_handle, char_uuid),
            GattsEvent::PeerConnected { conn_id, addr } => self.peer_connected(conn_id, addr),
            GattsEvent::PeerDisconnected { addr } => self.peer_disconnected(addr),
            GattsEvent::Confirm { status, conn_id } => self.confirm(status, conn_id),
            GattsEvent::Read { conn_id, trans_id, handle } => self.read(conn_id, trans_id, handle),
            GattsEvent::Other => {
                let cmds: Vec<Command> = Vec::new();
                assert(commands_view(cmds@) =~= Seq::<CommandView>::empty());
                Ok(cmds)
            },
        }
    }

    /// Handles one event of the advertising lifecycle: once the payload is
    /// configured, advertising starts.
    pub fn handle_gap_event(&self, event: GapEvent) -> (r: Result<Vec<Command>, ServerError>)
        ensures
            match r {
                Ok(cmds) => gap_transition(event) == Ok::<Seq<CommandView>, ServerError>(commands_view(cmds@)),
                Err(e) => gap_transition(event) == Err::<Seq<CommandView>, ServerError>(e),
            },
    {
        let mut cmds: Vec<Command> = Vec::new();
        match event {
            GapEvent::AdvertisingConfigured(Status::Failure(code)) => {
                return Err(ServerError::AdvertisingFailed(code));
            },
            GapEvent::AdvertisingConfigured(Status::Success) => {
                cmds.push(Command::StartAdvertising);
                assert(commands_view(cmds@) =~= seq![CommandView::StartAdvertising]);
            },
            GapEvent::Other => {
                assert(commands_view(cmds@) =~= Seq::<CommandView>::empty());
            },
        }
        Ok(cmds)
    }

    /// Stores `data` as the value of the first characteristic with uuid
    /// `uuid` and starts its indication to every tracked connection. An
    /// unknown uuid fails at once, with nothing changed and nothing to send.
    pub fn indicate(&mut self, uuid: &Uuid, data: &[u8]) -> (r: Result<Indication, ServerError>)
        requires
            old(self)@.wf(),
        ensures
            final(self)@.wf(),
            match r {
                Ok(ind) => {
                    &&& indicate_spec(old(self)@, *uuid, data@) == Ok::<(ServerView, u16), ServerError>(
                        (final(self)@, ind.spec_handle()),
                    )
                    &&& ind.spec_value() == data@
                    &&& ind.spec_next() == 0
                },
                Err(e) => indicate_spec(old(self)@, *uuid, data@) == Err::<(ServerView, u16), ServerError>(e)
                    && final(self)@ == old(self)@,
            },
    {
        let (i, j) = match self.find_uuid(*uuid) {
            Some(p) => p,
            None => return Err(ServerError::NoSuchCharacteristic(*uuid)),
        };
        let ghost before = self@;
        proof {
            let (a, b) = first_position(before.services, *uuid);
            assert(is_first_position(before.services, *uuid, a, b));
            lemma_first_position_unique(before.services, *uuid, a, b, i as int, j as int);
        }
        self.services[i].characteristics[j].data = vstd::slice::slice_to_vec(data);
        let handle = self.services[i].characteristics[j].handle;
        proof {
            assert(self@.services[i as int].characteristics =~= with_value(before.services, i as int, j as int, data@)[i as int].characteristics);
            assert(self@.services =~= with_value(before.services, i as int, j as int, data@));
            assert forall|a: int, x: int, b: int, y: int|
                valid_position(self@.services, a, x) && valid_position(self@.services, b, y) && (a != b
                    || x != y) implies (#[trigger] self@.services[a].characteristics[x]).handle
                    != (#[trigger] self@.services[b].characteristics[y]).handle by {
                assert(valid_position(before.services, a, x));
                assert(valid_position(before.services, b, y));
            }
        }
        Ok(Indication { handle, value: vstd::slice::slice_to_vec(data), next: 0 })
    }

    /// The next step of indication `ind`.
    pub fn indication_step(&self, ind: &Indication) -> (r: Result<IndicationStep, ServerError>)
        ensures
            r == indication_step_spec(self@, ind.spec_next(), ind.spec_handle()),
    {
        if ind.next >= self.connections.len() {
            return Ok(IndicationStep::Done);
        }
        if self.awaiting.is_some() {
            return Ok(IndicationStep::Wait);
        }
        match self.interface {
            Some(intf) => Ok(
                IndicationStep::Send {
                    interface: intf,
                    conn_id: self.connections[ind.next].conn_id,
                    handle: ind.handle,
                },
            ),
            None => Err(ServerError::NotRegistered),
        }
    }

    /// Records that `ind` was sent to its next connection: that connection's
    /// confirmation is now awaited, and `ind` moves on to the one after.
    pub fn indication_sent(&mut self, ind: &mut Indication)
        requires
            old(self)@.wf(),
            old(self)@.awaiting is None,
            old(ind).spec_next() < old(self)@.connections.len(),
        ensures
            final(self)@.wf(),
            final(self)@ == (ServerView {
                awaiting: Some(old(self)@.connections[old(ind).spec_next() as int]),
                ..old(self)@
            }),
            final(ind).spec_next() == old(ind).spec_next() + 1,
            final(ind).spec_handle() == old(ind).spec_handle(),
            final(ind).spec_value() == old(ind).spec_value(),
    {
        self.awaiting = Some(self.connections[ind.next]);
        ind.next = ind.next + 1;
    }

    /// The connection whose confirmation is awaited, if any.
    pub fn awaiting(&self) -> (r: Option<Connection>)
        ensures
            r == self@.awaiting,
    {
        self.awaiting
    }

    /// The number of tracked connections.
    pub fn connection_count(&self) -> (r: usize)
        ensures
            r == self@.connections.len(),
    {
        self.connections.len()
    }

    /// The runtime service with handle `h`.
    fn find_service(&self, h: u16) -> (r: Option<usize>)
        ensures
            match r {
                Some(i) => i < self@.services.len() && self@.services[i as int].handle == h,
                None => !has_service_handle(self@.services, h),
            },
    {
        let mut i: usize = 0;
        while i < self.services.len()
            invariant
                i <= self.services@.len(),
                forall|k: int| 0 <= k < i ==> (#[trigger] self@.services[k]).handle != h,
            decreases self.services@.len() - i,
        {
            if self.services[i].handle == h {
                return Some(i);
            }
            i += 1;
        }
        None
    }

    /// The runtime characteristic with handle `h`.
    fn find_handle(&self, h: u16) -> (r: Option<(usize, usize)>)
        ensures
            match r {
                Some((i, j)) => valid_position(self@.services, i as int, j as int)
                    && self@.services[i as int].characteristics[j as int].handle == h,
                None => !has_handle(self@.services, h),
            },
    {
        let mut i: usize = 0;
        while i < self.services.len()
            invariant
                i <= self.services@.len(),
                forall|k: int, l: int|
                    valid_position(self@.services, k, l) && k < i
                        ==> (#[trigger] self@.services[k].characteristics[l]).handle != h,
            decreases self.services@.len() - i,
        {
            let chars = &self.services[i].characteristics;
            let mut j: usize = 0;
            while j < chars.len()
                invariant
                    i < self.services@.len(),
                    chars@.map_values(|c: Characteristic| c@) == self@.services[i as int].characteristics,
                    j <= chars@.len(),
                    forall|k: int, l: int|
                        valid_position(self@.services, k, l) && k < i
                            ==> (#[trigger] self@.services[k].characteristics[l]).handle != h,
                    forall|l: int| 0 <= l < j ==> (#[trigger] chars@[l]).handle != h,
                decreases chars@.len() - j,
            {
                if chars[j].handle == h {
                    return Some((i, j));
                }
                j += 1;
            }
            assert forall|k: int, l: int|
                valid_position(self@.services, k, l) && k < i + 1 implies
                    (#[trigger] self@.services[k].characteristics[l]).handle != h by {
                if k == i {
                    assert(self@.services[k].characteristics[l] == chars@[l]@);
                }
            }
            i += 1;
        }
        None
    }

    /// The first runtime characteristic, in table order, with uuid `u`.
    fn find_uuid(&self, u: Uuid) -> (r: Option<(usize, usize)>)
        ensures
            match r {
                Some((i, j)) => is_first_position(self@.services, u, i as int, j as int),
                None => !has_characteristic(self@.services, u),
            },
    {
        let mut i: usize = 0;
        while i < self.services.len()
            invariant
                i <= self.services@.len(),
                forall|k: int, l: int|
                    valid_position(self@.services, k, l) && k < i
                        ==> (#[trigger] self@.services[k].characteristics[l]).uuid != u,
            decreases self.services@.len() - i,
        {
            let chars = &self.services[i].characteristics;
            let mut j: usize = 0;
            while j < chars.len()
                invariant
                    i < self.services@.len(),
                    chars@.map_values(|c: Characteristic| c@) == self@.services[i as int].characteristics,
                    j <= chars@.len(),
                    forall|k: int, l: int|
                        valid_position(self@.services, k, l) && k < i
                            ==> (#[trigger] self@.services[k].characteristics[l]).uuid != u,
                    forall|l: int| 0 <= l < j ==> (#[trigger] chars@[l]).uuid != u,
                decreases chars@.len() - j,
            {
                if chars[j].uuid == u {
                    assert forall|l: int| 0 <= l < j implies
                        (#[trigger] self@.services[i as int].characteristics[l]).uuid != u by {
                        assert(self@.services[i as int].characteristics[l] == chars@[l]@);
                    }
                    return Some((i, j));
                }
                j += 1;
            }
            assert forall|k: int, l: int|
                valid_position(self@.services, k, l) && k < i + 1 implies
                    (#[trigger] self@.services[k].characteristics[l]).uuid != u by {
                if k == i {
                    assert(self@.services[k].characteristics[l] == chars@[l]@);
                }
            }
            i += 1;
        }
        None
    }
}

} // verus!
