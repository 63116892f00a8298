//! Properties of the attribute server that hold across events and calls.

use vstd::prelude::*;
use crate::event::{CommandView, GattsEvent};
use crate::schema::{
    distinct_uuids, has_service, CharacteristicDescriptor, PeerAddr, ServiceDescriptor, Status,
    Uuid, wf_schema,
};
use crate::wireless::{
    add_characteristic_command, characteristic_commands, create_service_command,
    connect_registry, disconnect_registry, gatts_transition, has_service_handle, indicate_spec, first_position, lemma_first_position_exists,
    indication_step_spec, is_first_position, is_other_peer, on_read, registration_commands,
    valid_position, Connection, IndicationStep, ServerView, APP_ID, MAX_CONNECTIONS,
};

verus! {

proof fn lemma_characteristic_commands_absent(services: Seq<ServiceDescriptor>, h: u16, u: Uuid)
    requires
        !has_service(services, u),
    ensures
        characteristic_commands(services, h, u) == Seq::<CommandView>::empty(),
    decreases services.len(),
{
    if services.len() > 0 {
        let rest = services.drop_last();
        assert(!has_service(rest, u)) by {
            if exists|i: int| 0 <= i < rest.len() && (#[trigger] rest[i]).uuid == u {
                let i = choose|i: int| 0 <= i < rest.len() && (#[trigger] rest[i]).uuid == u;
                assert(services[i] == rest[i]);
            }
        }
        assert(services[services.len() - 1].uuid != u);
        lemma_characteristic_commands_absent(rest, h, u);
        assert(characteristic_commands(services, h, u) =~= Seq::<CommandView>::empty());
    }
}

proof fn lemma_characteristic_commands_of(services: Seq<ServiceDescriptor>, h: u16, k: int)
    requires
        distinct_uuids(services),
        0 <= k < services.len(),
    ensures
        characteristic_commands(services, h, services[k].uuid)
            == services[k].characteristics@.map_values(
            |c: CharacteristicDescriptor| add_characteristic_command(h, c),
        ),
    decreases services.len(),
{
    let u = services[k].uuid;
    let rest = services.drop_last();
    let n = services.len() - 1;
    if k == n {
        assert(!has_service(rest, u)) by {
            if exists|i: int| 0 <= i < rest.len() && (#[trigger] rest[i]).uuid == u {
                let i = choose|i: int| 0 <= i < rest.len() && (#[trigger] rest[i]).uuid == u;
                assert(services[i].uuid == services[n].uuid);
            }
        }
        lemma_characteristic_commands_absent(rest, h, u);
        assert(characteristic_commands(services, h, u) =~= services[k].characteristics@.map_values(
            |c: CharacteristicDescriptor| add_characteristic_command(h, c),
        ));
    } else {
        assert(distinct_uuids(rest)) by {
            assert forall|a: int, b: int| 0 <= a < rest.len() && 0 <= b < rest.len() && a != b
                implies (#[trigger] rest[a]).uuid != (#[trigger] rest[b]).uuid by {
                assert(services[a] == rest[a] && services[b] == rest[b]);
            }
        }
        assert(rest[k] == services[k]);
        assert(services[n].uuid != u);
        lemma_characteristic_commands_of(rest, h, k);
        assert(characteristic_commands(services, h, u) =~= characteristic_commands(rest, h, u));
    }
}

/// Building the server from a well-formed schema issues exactly one
/// create-service call per schema service, in schema order, besides the
/// naming and advertising calls; and once the stack reports schema service
/// `k` created under handle `h`, exactly one add-characteristic call per
/// characteristic of that service, in order, each scoped to `h`.
pub proof fn lemma_one_call_per_schema_item(s: ServerView, intf: u8, k: int, h: u16)
    requires
        wf_schema(s.schema),
        s.interface is None,
        0 <= k < s.schema.services@.len(),
        !has_service_handle(s.services, h),
    ensures
        ({
            let services = s.schema.services@;
            let cmds = registration_commands(s.schema, intf);
            let registered = GattsEvent::ServiceRegistered { status: Status::Success, app_id: APP_ID };
            let created = GattsEvent::ServiceCreated {
                status: Status::Success,
                service_handle: h,
                service_uuid: services[k].uuid,
            };
            &&& gatts_transition(s, intf, registered) matches Ok((t, c)) && c == cmds
                && t == ServerView { interface: Some(intf), ..s }
            &&& cmds.len() == services.len() + 2
            &&& !(cmds[0] is CreateService) && !(cmds[1] is CreateService)
            &&& forall|i: int|
                0 <= i < services.len() ==> #[trigger] cmds[i + 2] == create_service_command(
                    intf,
                    services[i],
                )
            &&& gatts_transition(s, intf, created) matches Ok((_, c)) && c == seq![
                CommandView::StartService { service_handle: h },
            ] + services[k].characteristics@.map_values(
                |c: CharacteristicDescriptor| add_characteristic_command(h, c),
            )
        }),
{
    let services = s.schema.services@;
    let p = choose|p: int| 0 <= p < services.len() && (#[trigger] services[p]).is_primary
        && forall|q: int| 0 <= q < services.len() && q != p ==> !(#[trigger] services[q]).is_primary;
    assert(services[p].is_primary);
    assert(services[k].uuid == services[k].uuid);
    lemma_characteristic_commands_of(services, h, k);
}

/// Whether `e` is a successful confirmation on the connection that
/// `awaiting` names.
pub open spec fn confirms(awaiting: Option<Connection>, e: GattsEvent) -> bool {
    awaiting is Some && e == (GattsEvent::Confirm { status: Status::Success, conn_id: awaiting->0.conn_id })
}

/// The in-flight marker names at most one connection. No event sets it, and
/// an event clears it if and only if it is a successful confirmation on the
/// awaited connection; every other event leaves it as it was.
pub proof fn lemma_marker_cleared_only_by_its_confirmation(s: ServerView, intf: u8, e: GattsEvent)
    ensures
        (gatts_transition(s, intf, e) matches Ok((t, _)) ==> t.awaiting == if confirms(s.awaiting, e) {
            None
        } else {
            s.awaiting
        }),
        confirms(s.awaiting, e) ==> (gatts_transition(s, intf, e) matches Ok((t, _)) && t.awaiting is None),
{
}

/// The state after each of `events` in turn; an event that fails leaves
/// the state as it was.
pub open spec fn run(s: ServerView, intf: u8, events: Seq<GattsEvent>) -> ServerView
    decreases events.len(),
{
    if events.len() == 0 {
        s
    } else {
        let prev = run(s, intf, events.drop_last());
        match gatts_transition(prev, intf, events.last()) {
            Ok((t, _)) => t,
            Err(_) => prev,
        }
    }
}

proof fn lemma_step_keeps_bound(s: ServerView, intf: u8, e: GattsEvent)
    requires
        s.connections.len() <= MAX_CONNECTIONS,
    ensures
        (gatts_transition(s, intf, e) matches Ok((t, _)) ==> t.connections.len() <= MAX_CONNECTIONS),
{
    if let GattsEvent::PeerDisconnected { addr } = e {
        s.connections.lemma_filter_len(is_other_peer(addr));
        assert(disconnect_registry(s.connections, addr).len() <= s.connections.len());
    }
}

/// Over any sequence of events, the registry never holds more than the
/// peer bound.
pub proof fn lemma_registry_bounded(s: ServerView, intf: u8, events: Seq<GattsEvent>)
    requires
        s.connections.len() <= MAX_CONNECTIONS,
    ensures
        run(s, intf, events).connections.len() <= MAX_CONNECTIONS,
    decreases events.len(),
{
    if events.len() > 0 {
        lemma_registry_bounded(s, intf, events.drop_last());
        lemma_step_keeps_bound(run(s, intf, events.drop_last()), intf, events.last());
    }
}

/// A peer that connects while the registry is full is not tracked: the
/// state is unchanged and no call is made. No indication step then sends to
/// it, since every send targets a tracked connection.
pub proof fn lemma_peer_beyond_bound_not_indicated(
    s: ServerView,
    intf: u8,
    conn_id: u16,
    addr: PeerAddr,
    next: nat,
    handle: u16,
)
    requires
        s.connections.len() >= MAX_CONNECTIONS,
        !s.connections.contains(Connection { peer: addr, conn_id }),
    ensures
        gatts_transition(s, intf, GattsEvent::PeerConnected { conn_id, addr }) == Ok::<
            (ServerView, Seq<CommandView>),
            crate::event::ServerError,
        >((s, Seq::empty())),
        ({
            let step = indication_step_spec(s, next, handle);
            step is Ok && step->Ok_0 is Send ==> {
                &&& next < s.connections.len()
                &&& step->Ok_0->Send_conn_id == s.connections[next as int].conn_id
                &&& s.connections[next as int] != (Connection { peer: addr, conn_id })
            }
        }),
{
    assert(connect_registry(s.connections, Connection { peer: addr, conn_id }) == s.connections);
    if next < s.connections.len() {
        assert(s.connections.contains(s.connections[next as int]));
    }
}

/// After `indicate(u, v)` succeeds, a read of the handle it indicated is
/// answered with exactly `v`, whatever confirmation is then awaited.
pub proof fn lemma_read_after_indicate(
    s: ServerView,
    u: Uuid,
    v: Seq<u8>,
    awaiting: Option<Connection>,
    conn_id: u16,
    trans_id: u32,
)
    requires
        s.wf(),
        s.interface is Some,
        indicate_spec(s, u, v) is Ok,
    ensures
        indicate_spec(s, u, v) matches Ok((t, h)) && on_read(ServerView { awaiting, ..t }, conn_id, trans_id, h)
            == Ok::<(ServerView, Seq<CommandView>), crate::event::ServerError>(
            (
                ServerView { awaiting, ..t },
                seq![CommandView::SendResponse { interface: s.interface->0, conn_id, trans_id, value: v }],
            ),
        ),
{
    lemma_first_position_exists(s.services, u);
    let (i, j) = first_position(s.services, u);
    let (t, h) = indicate_spec(s, u, v)->Ok_0;
    let r = ServerView { awaiting, ..t };
    assert(valid_position(r.services, i, j) && r.services[i].characteristics[j].handle == h);
    let (a, b) = choose|a: int, b: int|
        valid_position(r.services, a, b) && (#[trigger] r.services[a].characteristics[b]).handle == h;
    assert(valid_position(s.services, a, b));
    assert(a == i && b == j) by {
        if a != i || b != j {
            assert(s.services[a].characteristics[b].handle != s.services[i].characteristics[j].handle);
        }
    }
}

} // verus!
