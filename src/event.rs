//! What the radio stack reports to the server, what the server asks of the
//! stack in return, and how the server fails.

use vstd::prelude::*;
use crate::schema::{Permissions, PeerAddr, Properties, Status, Uuid};

verus! {

/// An event of the advertising lifecycle.
#[derive(Clone, Copy, Debug, PartialEq, Eq, Structural)]
pub enum GapEvent {
    AdvertisingConfigured(Status),
    Other,
}

/// An event of the attribute-server lifecycle, or peer I/O.
#[derive(Clone, Copy, Debug, PartialEq, Eq, Structural)]
pub enum GattsEvent {
    ServiceRegistered { status: Status, app_id: u16 },
    ServiceCreated { status: Status, service_handle: u16, service_uuid: Uuid },
    CharacteristicAdded { status: Status, attr_handle: u16, service_handle: u16, char_uuid: Uuid },
    PeerConnected { conn_id: u16, addr: PeerAddr },
    PeerDisconnected { addr: PeerAddr },
    /// A peer acknowledged the indication sent on connection `conn_id`.
    Confirm { status: Status, conn_id: u16 },
    Read { conn_id: u16, trans_id: u32, handle: u16 },
    Other,
}

/// An imperative call that the server asks the stack to make.
#[derive(Clone, Debug, PartialEq, Eq)]
pub enum Command {
    SetDeviceName { name: &'static str },
    /// Advertise the device name, the given flags, the human-interface
    /// appearance and the uuid of the primary service.
    ConfigureAdvertising { include_name: bool, flag: u8, service_uuid: Uuid },
    StartAdvertising,
    CreateService { interface: u8, uuid: Uuid, is_primary: bool, num_handles: u16 },
    StartService { service_handle: u16 },
    /// Add a characteristic whose reads the server answers itself.
    AddCharacteristic {
        service_handle: u16,
        uuid: Uuid,
        permissions: Permissions,
        properties: Properties,
        max_len: usize,
        value: Vec<u8>,
    },
    AddDescriptor { service_handle: u16, uuid: Uuid, permissions: Permissions },
    SetConnectionParams {
        addr: PeerAddr,
        min_interval_ms: u32,
        max_interval_ms: u32,
        latency_ms: u32,
        timeout_ms: u32,
    },
    SendResponse { interface: u8, conn_id: u16, trans_id: u32, value: Vec<u8> },
}

/// A `Command` with its strings and buffers seen as sequences.
pub enum CommandView {
    SetDeviceName { name: Seq<char> },
    ConfigureAdvertising { include_name: bool, flag: u8, service_uuid: Uuid },
    StartAdvertising,
    CreateService { interface: u8, uuid: Uuid, is_primary: bool, num_handles: u16 },
    StartService { service_handle: u16 },
    AddCharacteristic {
        service_handle: u16,
        uuid: Uuid,
        permissions: Permissions,
        properties: Properties,
        max_len: usize,
        value: Seq<u8>,
    },
    AddDescriptor { service_handle: u16, uuid: Uuid, permissions: Permissions },
    SetConnectionParams {
        addr: PeerAddr,
        min_interval_ms: u32,
        max_interval_ms: u32,
        latency_ms: u32,
        timeout_ms: u32,
    },
    SendResponse { interface: u8, conn_id: u16, trans_id: u32, value: Seq<u8> },
}

impl View for Command {
    type V = CommandView;

    open spec fn view(&self) -> CommandView {
        match *self {
            Command::SetDeviceName { name } => CommandView::SetDeviceName { name: name@ },
            Command::ConfigureAdvertising { include_name, flag, service_uuid } =>
                CommandView::ConfigureAdvertising { include_name, flag, service_uuid },
            Command::StartAdvertising => CommandView::StartAdvertising,
            Command::CreateService { interface, uuid, is_primary, num_handles } =>
                CommandView::CreateService { interface, uuid, is_primary, num_handles },
            Command::StartService { service_handle } => CommandView::StartService { service_handle },
            Command::AddCharacteristic { service_handle, uuid, permissions, properties, max_len, value } =>
                CommandView::AddCharacteristic {
                    service_handle,
                    uuid,
                    permissions,
                    properties,
                    max_len,
                    value: value@,
                },
            Command::AddDescriptor { service_handle, uuid, permissions } =>
                CommandView::AddDescriptor { service_handle, uuid, permissions },
            Command::SetConnectionParams { addr, min_interval_ms, max_interval_ms, latency_ms, timeout_ms } =>
                CommandView::SetConnectionParams { addr, min_interval_ms, max_interval_ms, latency_ms, timeout_ms },
            Command::SendResponse { interface, conn_id, trans_id, value } =>
                CommandView::SendResponse { interface, conn_id, trans_id, value: value@ },
        }
    }
}

/// The views of a list of commands.
pub open spec fn commands_view(cmds: Seq<Command>) -> Seq<CommandView> {
    cmds.map_values(|c: Command| c@)
}

/// How a server step fails. Setup failures and protocol violations are
/// fatal to the server; an unknown characteristic is the caller's to handle.
#[derive(Clone, Copy, Debug, PartialEq, Eq, Structural)]
pub enum ServerError {
    /// The stack could not configure advertising.
    AdvertisingFailed(u32),
    /// The stack could not register the application.
    RegistrationFailed(u32),
    /// A registration arrived for another application identity.
    UnexpectedApplication(u16),
    /// A second registration arrived for this application.
    AlreadyRegistered,
    /// The schema flags no service as primary.
    NoPrimaryService,
    /// A schema service has more characteristics than a service can hold.
    ServiceTooLarge,
    /// The stack could not create a service.
    ServiceCreationFailed(u32),
    /// A service was created with a uuid that the schema does not hold.
    UnknownService(Uuid),
    /// A service was created with a handle already in use.
    DuplicateServiceHandle(u16),
    /// The stack could not add a characteristic.
    CharacteristicFailed(u32),
    /// A characteristic was added to a service handle the server never saw.
    UnknownServiceHandle(u16),
    /// A characteristic was added with a uuid that the schema does not hold.
    UnknownCharacteristic(Uuid),
    /// A characteristic was added with a handle already in use.
    DuplicateHandle(u16),
    /// The stack reported a failed indication.
    ConfirmationFailed(u32),
    /// A confirmation arrived on a connection that no indication awaits.
    UnexpectedConfirmation(u16),
    /// A read addressed a handle the server never assigned.
    UnknownHandle(u16),
    /// The stack has not yet registered the server's interface.
    NotRegistered,
    /// No characteristic of the runtime table has this uuid.
    NoSuchCharacteristic(Uuid),
}

} // verus!
