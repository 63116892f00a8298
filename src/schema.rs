//! The declarative schema of the attribute server: services, their
//! characteristics, and the plain values they are built from.

use vstd::prelude::*;

verus! {

/// A Bluetooth uuid in one of its three sizes.
#[derive(Clone, Copy, Debug, PartialEq, Eq, Structural)]
pub enum Uuid {
    Uuid16(u16),
    Uuid32(u32),
    Uuid128(u128),
}

/// A peer's 48-bit device address, most significant byte first.
#[derive(Clone, Copy, Debug, PartialEq, Eq, Structural)]
pub struct PeerAddr(pub u64);

/// Access permissions of an attribute.
#[derive(Clone, Copy, Debug, PartialEq, Eq, Structural)]
pub struct Permissions {
    pub read: bool,
    pub write: bool,
}

/// Properties that a characteristic declares to peers.
#[derive(Clone, Copy, Debug, PartialEq, Eq, Structural)]
pub struct Properties {
    pub read: bool,
    pub write: bool,
    pub indicate: bool,
}

/// Outcome that the stack reports for a request: success, or a failure code.
#[derive(Clone, Copy, Debug, PartialEq, Eq, Structural)]
pub enum Status {
    Success,
    Failure(u32),
}

/// One characteristic of the schema, with its declared initial value.
#[derive(Clone, Debug)]
pub struct CharacteristicDescriptor {
    pub uuid: Uuid,
    pub permissions: Permissions,
    pub properties: Properties,
    /// Largest value, in bytes, that the characteristic may hold.
    pub max_len: usize,
    pub data: Vec<u8>,
}

/// One service of the schema and its characteristics, in order.
#[derive(Clone, Debug)]
pub struct ServiceDescriptor {
    pub uuid: Uuid,
    /// The primary service is the one advertised.
    pub is_primary: bool,
    pub characteristics: Vec<CharacteristicDescriptor>,
}

/// The whole schema: the device name and the services, in order.
#[derive(Clone)]
pub struct ServerConfiguration {
    pub services: Vec<ServiceDescriptor>,
    pub name: &'static str,
}

impl Default for ServerConfiguration {
    fn default() -> (r: Self)
        ensures
            r.services@.len() == 0,
            r.name@ == "esp32"@,
    {
        proof {
            reveal_strlit("esp32");
        }
        Self { services: Vec::new(), name: "esp32" }
    }
}

/// Handles that a service needs: its declaration, then for each
/// characteristic a declaration, a value and a configuration descriptor.
pub open spec fn handle_count(s: ServiceDescriptor) -> int {
    1 + 3 * (s.characteristics@.len() as int)
}

/// Service `i` is the first one flagged primary.
pub open spec fn is_first_primary(services: Seq<ServiceDescriptor>, i: int) -> bool {
    &&& 0 <= i < services.len()
    &&& services[i].is_primary
    &&& forall|k: int| 0 <= k < i ==> !(#[trigger] services[k]).is_primary
}

pub open spec fn has_primary(services: Seq<ServiceDescriptor>) -> bool {
    exists|i: int| 0 <= i < services.len() && (#[trigger] services[i]).is_primary
}

/// The uuid that is advertised: that of the first primary service.
pub open spec fn primary_uuid(services: Seq<ServiceDescriptor>) -> Uuid {
    services[choose|i: int| is_first_primary(services, i)].uuid
}

pub open spec fn has_service(services: Seq<ServiceDescriptor>, u: Uuid) -> bool {
    exists|i: int| 0 <= i < services.len() && (#[trigger] services[i]).uuid == u
}

/// Every service fits in the handle space that a create request can ask for.
pub open spec fn services_fit(services: Seq<ServiceDescriptor>) -> bool {
    forall|i: int| 0 <= i < services.len() ==> handle_count(#[trigger] services[i]) <= u16::MAX
}

/// Characteristic `j` of service `i` is the first one, in schema order,
/// with uuid `u`.
pub open spec fn is_first_descriptor(services: Seq<ServiceDescriptor>, u: Uuid, i: int, j: int) -> bool {
    &&& 0 <= i < services.len()
    &&& 0 <= j < services[i].characteristics@.len()
    &&& services[i].characteristics@[j].uuid == u
    &&& forall|k: int, l: int|
        0 <= k < i && 0 <= l < services[k].characteristics@.len()
            ==> (#[trigger] services[k].characteristics@[l]).uuid != u
    &&& forall|l: int| 0 <= l < j ==> (#[trigger] services[i].characteristics@[l]).uuid != u
}

pub open spec fn has_descriptor(services: Seq<ServiceDescriptor>, u: Uuid) -> bool {
    exists|i: int, j: int|
        0 <= i < services.len() && 0 <= j < services[i].characteristics@.len()
            && (#[trigger] services[i].characteristics@[j]).uuid == u
}

/// The initial value that the schema declares for uuid `u`: that of its
/// first characteristic with this uuid.
pub open spec fn initial_value(services: Seq<ServiceDescriptor>, u: Uuid) -> Seq<u8> {
    let (i, j) = choose|i: int, j: int| is_first_descriptor(services, u, i, j);
    services[i].characteristics@[j].data@
}

pub open spec fn distinct_uuids(s: Seq<ServiceDescriptor>) -> bool {
    forall|a: int, b: int| 0 <= a < s.len() && 0 <= b < s.len() && a != b
        ==> (#[trigger] s[a]).uuid != (#[trigger] s[b]).uuid
}

/// A schema on which the server is fully defined: service uuids are distinct,
/// exactly one service is primary, and every service fits its handle space.
pub open spec fn wf_schema(c: ServerConfiguration) -> bool {
    let s = c.services@;
    &&& distinct_uuids(s)
    &&& exists|p: int| 0 <= p < s.len() && (#[trigger] s[p]).is_primary
        && forall|q: int| 0 <= q < s.len() && q != p ==> !(#[trigger] s[q]).is_primary
    &&& services_fit(s)
}

pub proof fn lemma_first_primary_unique(services: Seq<ServiceDescriptor>, i: int, k: int)
    requires
        is_first_primary(services, i),
        is_first_primary(services, k),
    ensures
        i == k,
{
}

pub proof fn lemma_first_descriptor_unique(services: Seq<ServiceDescriptor>, u: Uuid, i: int, j: int, k: int, l: int)
    requires
        is_first_descriptor(services, u, i, j),
        is_first_descriptor(services, u, k, l),
    ensures
        i == k && j == l,
{
    if i < k {
        assert(services[i].characteristics@[j].uuid == u);
    } else if k < i {
        assert(services[k].characteristics@[l].uuid == u);
    }
}

} // verus!
