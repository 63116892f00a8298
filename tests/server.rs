use otgi::event::{Command, GapEvent, GattsEvent, ServerError};
use otgi::schema::{
    CharacteristicDescriptor, PeerAddr, Permissions, Properties, ServerConfiguration,
    ServiceDescriptor, Status, Uuid,
};
use otgi::wireless::{Connection, IndicationStep, Server, APP_ID, MAX_CONNECTIONS};

const INTF: u8 = 3;
const SERVICE: Uuid = Uuid::Uuid128(0x2cbc6002370f577a928681e04f368400);
const CHAR_C: Uuid = Uuid::Uuid128(0x56c46fef90390803a71feebcc8650e43);
const CHAR_D: Uuid = Uuid::Uuid128(0xed0cdaa9fc55c2c193a061b6e1f36720);
const SERVICE_HANDLE: u16 = 40;
const C_HANDLE: u16 = 42;
const PEER_A: PeerAddr = PeerAddr(0x0011_2233_4455);
const PEER_B: PeerAddr = PeerAddr(0x0066_7788_99aa);

fn rw() -> Permissions {
    Permissions { read: true, write: true }
}

fn indicate_only() -> Properties {
    Properties { read: false, write: false, indicate: true }
}

fn char_c() -> CharacteristicDescriptor {
    CharacteristicDescriptor {
        uuid: CHAR_C,
        permissions: rw(),
        properties: indicate_only(),
        max_len: 8,
        data: vec![0; 8],
    }
}

fn one_service_schema() -> ServerConfiguration {
    ServerConfiguration {
        services: vec![ServiceDescriptor { uuid: SERVICE, is_primary: true, characteristics: vec![char_c()] }],
        name: "OTGI",
    }
}

fn ok<T>(r: Result<T, ServerError>) -> T {
    match r {
        Ok(v) => v,
        Err(e) => panic!("unexpected error {:?}", e),
    }
}

fn registered() -> GattsEvent {
    GattsEvent::ServiceRegistered { status: Status::Success, app_id: APP_ID }
}

/// A server for the one-service schema, built up to its characteristic.
fn built_server() -> Server {
    let mut server = Server::new(one_service_schema());
    ok(server.handle_gatts_event(INTF, registered()));
    ok(server.handle_gatts_event(
        INTF,
        GattsEvent::ServiceCreated { status: Status::Success, service_handle: SERVICE_HANDLE, service_uuid: SERVICE },
    ));
    ok(server.handle_gatts_event(
        INTF,
        GattsEvent::CharacteristicAdded {
            status: Status::Success,
            attr_handle: C_HANDLE,
            service_handle: SERVICE_HANDLE,
            char_uuid: CHAR_C,
        },
    ));
    server
}

fn read(server: &mut Server, handle: u16) -> Result<Vec<Command>, ServerError> {
    server.handle_gatts_event(INTF, GattsEvent::Read { conn_id: 0, trans_id: 7, handle })
}

fn read_value(server: &mut Server, handle: u16) -> Vec<u8> {
    match ok(read(server, handle)).as_slice() {
        [Command::SendResponse { value, .. }] => value.clone(),
        other => panic!("unexpected response {:?}", other),
    }
}

#[test]
fn registration_names_advertises_and_creates_each_service() {
    let mut server = Server::new(one_service_schema());
    let cmds = ok(server.handle_gatts_event(INTF, registered()));
    assert_eq!(
        cmds,
        vec![
            Command::SetDeviceName { name: "OTGI" },
            Command::ConfigureAdvertising { include_name: true, flag: 2, service_uuid: SERVICE },
            Command::CreateService { interface: INTF, uuid: SERVICE, is_primary: true, num_handles: 4 },
        ]
    );
}

#[test]
fn service_created_starts_it_and_adds_its_characteristics() {
    let mut server = Server::new(one_service_schema());
    ok(server.handle_gatts_event(INTF, registered()));
    let cmds = ok(server.handle_gatts_event(
        INTF,
        GattsEvent::ServiceCreated { status: Status::Success, service_handle: SERVICE_HANDLE, service_uuid: SERVICE },
    ));
    assert_eq!(
        cmds,
        vec![
            Command::StartService { service_handle: SERVICE_HANDLE },
            Command::AddCharacteristic {
                service_handle: SERVICE_HANDLE,
                uuid: CHAR_C,
                permissions: rw(),
                properties: indicate_only(),
                max_len: 8,
                value: vec![0; 8],
            },
        ]
    );
}

#[test]
fn one_create_per_service_and_one_add_per_characteristic() {
    let other = Uuid::Uuid16(0x180f);
    let schema = ServerConfiguration {
        services: vec![
            ServiceDescriptor { uuid: other, is_primary: false, characteristics: vec![] },
            ServiceDescriptor {
                uuid: SERVICE,
                is_primary: true,
                characteristics: vec![
                    char_c(),
                    CharacteristicDescriptor {
                        uuid: CHAR_D,
                        permissions: rw(),
                        properties: Properties { read: true, write: false, indicate: true },
                        max_len: 200,
                        data: vec![9, 9],
                    },
                ],
            },
        ],
        name: "OTGI",
    };
    let mut server = Server::new(schema);
    let cmds = ok(server.handle_gatts_event(INTF, registered()));
    let creates: Vec<&Command> = cmds.iter().filter(|c| matches!(c, Command::CreateService { .. })).collect();
    assert_eq!(
        creates,
        vec![
            &Command::CreateService { interface: INTF, uuid: other, is_primary: false, num_handles: 1 },
            &Command::CreateService { interface: INTF, uuid: SERVICE, is_primary: true, num_handles: 7 },
        ]
    );
    assert_eq!(cmds[1], Command::ConfigureAdvertising { include_name: true, flag: 2, service_uuid: SERVICE });
    let cmds = ok(server.handle_gatts_event(
        INTF,
        GattsEvent::ServiceCreated { status: Status::Success, service_handle: 50, service_uuid: SERVICE },
    ));
    let adds: Vec<(u16, Uuid)> = cmds
        .iter()
        .filter_map(|c| match c {
            Command::AddCharacteristic { service_handle, uuid, .. } => Some((*service_handle, *uuid)),
            _ => None,
        })
        .collect();
    assert_eq!(adds, vec![(50, CHAR_C), (50, CHAR_D)]);
    let cmds = ok(server.handle_gatts_event(
        INTF,
        GattsEvent::ServiceCreated { status: Status::Success, service_handle: 60, service_uuid: other },
    ));
    assert_eq!(cmds, vec![Command::StartService { service_handle: 60 }]);
}

#[test]
fn characteristic_added_requests_configuration_descriptor() {
    let mut server = Server::new(one_service_schema());
    ok(server.handle_gatts_event(INTF, registered()));
    ok(server.handle_gatts_event(
        INTF,
        GattsEvent::ServiceCreated { status: Status::Success, service_handle: SERVICE_HANDLE, service_uuid: SERVICE },
    ));
    let cmds = ok(server.handle_gatts_event(
        INTF,
        GattsEvent::CharacteristicAdded {
            status: Status::Success,
            attr_handle: C_HANDLE,
            service_handle: SERVICE_HANDLE,
            char_uuid: CHAR_C,
        },
    ));
    assert_eq!(
        cmds,
        vec![Command::AddDescriptor { service_handle: SERVICE_HANDLE, uuid: Uuid::Uuid16(0x2902), permissions: rw() }]
    );
}

#[test]
fn indicate_waits_for_confirmation_before_next_push() {
    let mut server = built_server();
    let cmds = ok(server.handle_gatts_event(INTF, GattsEvent::PeerConnected { conn_id: 0, addr: PEER_A }));
    assert_eq!(
        cmds,
        vec![Command::SetConnectionParams {
            addr: PEER_A,
            min_interval_ms: 10,
            max_interval_ms: 20,
            latency_ms: 0,
            timeout_ms: 400,
        }]
    );

    let mut ind = ok(server.indicate(&CHAR_C, &[1, 2, 3]));
    assert_eq!(ind.value(), &[1, 2, 3]);
    let mut sends = 0;
    loop {
        match ok(server.indication_step(&ind)) {
            IndicationStep::Send { interface, conn_id, handle } => {
                assert_eq!((interface, conn_id, handle), (INTF, 0, C_HANDLE));
                sends += 1;
                server.indication_sent(&mut ind);
            }
            IndicationStep::Wait => panic!("nothing was outstanding"),
            IndicationStep::Done => break,
        }
    }
    assert_eq!(sends, 1);
    assert_eq!(server.awaiting(), Some(Connection { peer: PEER_A, conn_id: 0 }));

    // A second push waits until the first is confirmed.
    let ind2 = ok(server.indicate(&CHAR_C, &[4, 5, 6]));
    assert_eq!(ok(server.indication_step(&ind2)), IndicationStep::Wait);
    ok(server.handle_gatts_event(INTF, GattsEvent::Confirm { status: Status::Success, conn_id: 0 }));
    assert_eq!(server.awaiting(), None);
    assert_eq!(
        ok(server.indication_step(&ind2)),
        IndicationStep::Send { interface: INTF, conn_id: 0, handle: C_HANDLE }
    );
}

#[test]
fn second_peer_beyond_bound_is_not_tracked() {
    assert_eq!(MAX_CONNECTIONS, 1);
    let mut server = built_server();
    ok(server.handle_gatts_event(INTF, GattsEvent::PeerConnected { conn_id: 0, addr: PEER_A }));
    let cmds = ok(server.handle_gatts_event(INTF, GattsEvent::PeerConnected { conn_id: 1, addr: PEER_B }));
    assert!(cmds.is_empty());
    assert_eq!(server.connection_count(), 1);

    let mut ind = ok(server.indicate(&CHAR_C, &[7]));
    let mut targets = Vec::new();
    loop {
        match ok(server.indication_step(&ind)) {
            IndicationStep::Send { conn_id, .. } => {
                targets.push(conn_id);
                server.indication_sent(&mut ind);
            }
            IndicationStep::Wait => {
                let awaited = server.awaiting().unwrap().conn_id;
                ok(server.handle_gatts_event(INTF, GattsEvent::Confirm { status: Status::Success, conn_id: awaited }));
            }
            IndicationStep::Done => break,
        }
    }
    assert_eq!(targets, vec![0]);
}

#[test]
fn read_before_indicate_returns_initial_value() {
    let mut server = built_server();
    assert_eq!(
        ok(read(&mut server, C_HANDLE)),
        vec![Command::SendResponse { interface: INTF, conn_id: 0, trans_id: 7, value: vec![0; 8] }]
    );
}

#[test]
fn read_after_indicate_returns_new_value() {
    let mut server = built_server();
    ok(server.handle_gatts_event(INTF, GattsEvent::PeerConnected { conn_id: 0, addr: PEER_A }));
    let ind = ok(server.indicate(&CHAR_C, &[1, 2, 3]));
    assert_eq!(ind.handle(), C_HANDLE);
    assert_eq!(read_value(&mut server, C_HANDLE), vec![1, 2, 3]);
}

#[test]
fn indicate_unknown_uuid_fails_and_changes_nothing() {
    let mut server = built_server();
    ok(server.handle_gatts_event(INTF, GattsEvent::PeerConnected { conn_id: 0, addr: PEER_A }));
    assert_eq!(server.indicate(&CHAR_D, &[1]).err(), Some(ServerError::NoSuchCharacteristic(CHAR_D)));
    assert_eq!(server.awaiting(), None);
    assert_eq!(read_value(&mut server, C_HANDLE), vec![0; 8]);
}

#[test]
fn indicate_with_no_connection_is_done_at_once() {
    let mut server = built_server();
    let ind = ok(server.indicate(&CHAR_C, &[5]));
    assert_eq!(ind.next(), 0);
    assert_eq!(ok(server.indication_step(&ind)), IndicationStep::Done);
    assert_eq!(read_value(&mut server, C_HANDLE), vec![5]);
}

#[test]
fn registry_stays_bounded_over_connects_and_disconnects() {
    let mut server = built_server();
    let events = [
        GattsEvent::PeerConnected { conn_id: 0, addr: PEER_A },
        GattsEvent::PeerConnected { conn_id: 1, addr: PEER_B },
        GattsEvent::PeerDisconnected { addr: PEER_A },
        GattsEvent::PeerConnected { conn_id: 1, addr: PEER_B },
        GattsEvent::PeerConnected { conn_id: 2, addr: PEER_A },
        GattsEvent::PeerDisconnected { addr: PEER_A },
    ];
    for e in events {
        ok(server.handle_gatts_event(INTF, e));
        assert!(server.connection_count() <= MAX_CONNECTIONS);
    }
    assert_eq!(server.connection_count(), 1);
    ok(server.handle_gatts_event(INTF, GattsEvent::PeerDisconnected { addr: PEER_B }));
    assert_eq!(server.connection_count(), 0);
}

#[test]
fn marker_clears_only_on_confirmation_from_awaited_connection() {
    let mut server = built_server();
    ok(server.handle_gatts_event(INTF, GattsEvent::PeerConnected { conn_id: 4, addr: PEER_A }));
    let mut ind = ok(server.indicate(&CHAR_C, &[1]));
    assert!(matches!(ok(server.indication_step(&ind)), IndicationStep::Send { conn_id: 4, .. }));
    server.indication_sent(&mut ind);
    let awaited = Some(Connection { peer: PEER_A, conn_id: 4 });

    assert_eq!(
        server.handle_gatts_event(INTF, GattsEvent::Confirm { status: Status::Success, conn_id: 5 }),
        Err(ServerError::UnexpectedConfirmation(5))
    );
    assert_eq!(server.awaiting(), awaited);
    assert_eq!(
        server.handle_gatts_event(INTF, GattsEvent::Confirm { status: Status::Failure(133), conn_id: 4 }),
        Err(ServerError::ConfirmationFailed(133))
    );
    assert_eq!(server.awaiting(), awaited);
    ok(server.handle_gatts_event(INTF, GattsEvent::PeerDisconnected { addr: PEER_A }));
    assert_eq!(server.awaiting(), awaited);
    ok(server.handle_gatts_event(INTF, GattsEvent::Read { conn_id: 4, trans_id: 1, handle: C_HANDLE }));
    assert_eq!(server.awaiting(), awaited);
    ok(server.handle_gatts_event(INTF, GattsEvent::Confirm { status: Status::Success, conn_id: 4 }));
    assert_eq!(server.awaiting(), None);
    assert_eq!(
        server.handle_gatts_event(INTF, GattsEvent::Confirm { status: Status::Success, conn_id: 4 }),
        Err(ServerError::UnexpectedConfirmation(4))
    );
}

#[test]
fn advertising_starts_once_configured() {
    let server = Server::new(one_service_schema());
    assert_eq!(
        server.handle_gap_event(GapEvent::AdvertisingConfigured(Status::Success)),
        Ok(vec![Command::StartAdvertising])
    );
    assert_eq!(
        server.handle_gap_event(GapEvent::AdvertisingConfigured(Status::Failure(1))),
        Err(ServerError::AdvertisingFailed(1))
    );
    assert_eq!(server.handle_gap_event(GapEvent::Other), Ok(vec![]));
}

#[test]
fn registration_errors() {
    let mut server = Server::new(one_service_schema());
    assert_eq!(
        server.handle_gatts_event(INTF, GattsEvent::ServiceRegistered { status: Status::Failure(2), app_id: APP_ID }),
        Err(ServerError::RegistrationFailed(2))
    );
    assert_eq!(
        server.handle_gatts_event(INTF, GattsEvent::ServiceRegistered { status: Status::Success, app_id: 9 }),
        Err(ServerError::UnexpectedApplication(9))
    );
    ok(server.handle_gatts_event(INTF, registered()));
    assert_eq!(server.handle_gatts_event(INTF, registered()), Err(ServerError::AlreadyRegistered));

    let mut no_primary = Server::new(ServerConfiguration {
        services: vec![ServiceDescriptor { uuid: SERVICE, is_primary: false, characteristics: vec![char_c()] }],
        name: "OTGI",
    });
    assert_eq!(no_primary.handle_gatts_event(INTF, registered()), Err(ServerError::NoPrimaryService));

    let mut too_large = Server::new(ServerConfiguration {
        services: vec![ServiceDescriptor { uuid: SERVICE, is_primary: true, characteristics: vec![char_c(); 21845] }],
        name: "OTGI",
    });
    assert_eq!(too_large.handle_gatts_event(INTF, registered()), Err(ServerError::ServiceTooLarge));
}

#[test]
fn largest_service_that_fits_is_created() {
    let mut server = Server::new(ServerConfiguration {
        services: vec![ServiceDescriptor { uuid: SERVICE, is_primary: true, characteristics: vec![char_c(); 21844] }],
        name: "OTGI",
    });
    let cmds = ok(server.handle_gatts_event(INTF, registered()));
    assert_eq!(cmds[2], Command::CreateService { interface: INTF, uuid: SERVICE, is_primary: true, num_handles: 65533 });
}

#[test]
fn setup_errors() {
    let mut server = Server::new(one_service_schema());
    ok(server.handle_gatts_event(INTF, registered()));
    assert_eq!(
        server.handle_gatts_event(
            INTF,
            GattsEvent::ServiceCreated { status: Status::Failure(3), service_handle: 1, service_uuid: SERVICE }
        ),
        Err(ServerError::ServiceCreationFailed(3))
    );
    assert_eq!(
        server.handle_gatts_event(
            INTF,
            GattsEvent::ServiceCreated { status: Status::Success, service_handle: 1, service_uuid: CHAR_C }
        ),
        Err(ServerError::UnknownService(CHAR_C))
    );
    ok(server.handle_gatts_event(
        INTF,
        GattsEvent::ServiceCreated { status: Status::Success, service_handle: SERVICE_HANDLE, service_uuid: SERVICE },
    ));
    assert_eq!(
        server.handle_gatts_event(
            INTF,
            GattsEvent::ServiceCreated { status: Status::Success, service_handle: SERVICE_HANDLE, service_uuid: SERVICE }
        ),
        Err(ServerError::DuplicateServiceHandle(SERVICE_HANDLE))
    );
    let added = |status, attr_handle, service_handle, char_uuid| GattsEvent::CharacteristicAdded {
        status,
        attr_handle,
        service_handle,
        char_uuid,
    };
    assert_eq!(
        server.handle_gatts_event(INTF, added(Status::Failure(4), C_HANDLE, SERVICE_HANDLE, CHAR_C)),
        Err(ServerError::CharacteristicFailed(4))
    );
    assert_eq!(
        server.handle_gatts_event(INTF, added(Status::Success, C_HANDLE, 99, CHAR_C)),
        Err(ServerError::UnknownServiceHandle(99))
    );
    assert_eq!(
        server.handle_gatts_event(INTF, added(Status::Success, C_HANDLE, SERVICE_HANDLE, CHAR_D)),
        Err(ServerError::UnknownCharacteristic(CHAR_D))
    );
    ok(server.handle_gatts_event(INTF, added(Status::Success, C_HANDLE, SERVICE_HANDLE, CHAR_C)));
    assert_eq!(
        server.handle_gatts_event(INTF, added(Status::Success, C_HANDLE, SERVICE_HANDLE, CHAR_C)),
        Err(ServerError::DuplicateHandle(C_HANDLE))
    );
}

#[test]
fn read_errors() {
    let mut unregistered = Server::new(one_service_schema());
    assert_eq!(read(&mut unregistered, C_HANDLE), Err(ServerError::UnknownHandle(C_HANDLE)));
    let mut server = built_server();
    assert_eq!(read(&mut server, 77), Err(ServerError::UnknownHandle(77)));
}

#[test]
fn indication_before_registration_is_refused() {
    let mut server = Server::new(one_service_schema());
    ok(server.handle_gatts_event(
        INTF,
        GattsEvent::ServiceCreated { status: Status::Success, service_handle: SERVICE_HANDLE, service_uuid: SERVICE },
    ));
    ok(server.handle_gatts_event(
        INTF,
        GattsEvent::CharacteristicAdded {
            status: Status::Success,
            attr_handle: C_HANDLE,
            service_handle: SERVICE_HANDLE,
            char_uuid: CHAR_C,
        },
    ));
    assert_eq!(read(&mut server, C_HANDLE), Err(ServerError::NotRegistered));
    ok(server.handle_gatts_event(INTF, GattsEvent::PeerConnected { conn_id: 0, addr: PEER_A }));
    let ind = ok(server.indicate(&CHAR_C, &[1]));
    assert_eq!(server.indication_step(&ind), Err(ServerError::NotRegistered));
}

#[test]
fn default_configuration_is_empty_and_named() {
    let c = ServerConfiguration::default();
    assert!(c.services.is_empty());
    assert_eq!(c.name, "esp32");
}

#[test]
fn other_events_change_nothing() {
    let mut server = built_server();
    assert_eq!(server.handle_gatts_event(INTF, GattsEvent::Other), Ok(vec![]));
    assert_eq!(read_value(&mut server, C_HANDLE), vec![0; 8]);
}
