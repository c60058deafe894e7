//! Addressing the nodes of the cluster: node ids are IPv4 addresses.
use vstd::prelude::*;

use crate::encoding::pow256;

verus! {

/// The byte of `id` at position `k`, counted from the least significant.
pub open spec fn id_byte(id: u64, k: nat) -> u8 {
    ((id as nat / pow256(k)) % 256) as u8
}

/// The IPv4 address of the node with id `id`: the last four bytes of the
/// id, most significant first.
pub open spec fn addr_octets(id: u64) -> Seq<u8> {
    seq![id_byte(id, 3), id_byte(id, 2), id_byte(id, 1), id_byte(id, 0)]
}

/// The node id of an IPv4 address: its four bytes, most significant first,
/// as a number.
pub open spec fn octets_id(o: Seq<u8>) -> nat {
    o[0] as nat * 16777216 + o[1] as nat * 65536 + o[2] as nat * 256 + o[3] as nat
}

/// The IPv4 address and port of the node with the given id: the address is
/// the last four bytes of the id, most significant first.
pub fn id_to_addr(id: u64, port: u16) -> (res: ([u8; 4], u16))
    ensures
        res.0@ == addr_octets(id),
        res.1 == port,
{
    proof {
        reveal_with_fuel(pow256, 4);
        assert(pow256(0) == 1);
        assert(pow256(1) == 256);
        assert(pow256(2) == 65536);
        assert(pow256(3) == 16777216);
    }
    let a: u8 = ((id / 16777216) % 256) as u8;
    let b: u8 = ((id / 65536) % 256) as u8;
    let c: u8 = ((id / 256) % 256) as u8;
    let d: u8 = (id % 256) as u8;
    let octets: [u8; 4] = [a, b, c, d];
    assert(octets@[0] == a && octets@[1] == b && octets@[2] == c && octets@[3] == d);
    assert(octets@ =~= addr_octets(id));
    (octets, port)
}

/// The id of the node at the given IPv4 address: the address's bytes, most
/// significant first, as a number.
pub fn addr_to_id(octets: [u8; 4]) -> (res: Option<u64>)
    ensures
        res == Some(octets_id(octets@) as u64),
{
    let a = octets[0] as u64;
    let b = octets[1] as u64;
    let c = octets[2] as u64;
    let d = octets[3] as u64;
    Some(a * 16777216 + b * 65536 + c * 256 + d)
}

/// The id of a node's address is the node's id, up to its last four bytes:
/// ids that fit in four bytes come back unchanged.
pub proof fn lemma_id_addr_round_trip(id: u64)
    ensures
        octets_id(addr_octets(id)) == id as nat % 4294967296,
{
    reveal_with_fuel(pow256, 4);
    assert(pow256(1) == 256 && pow256(2) == 65536 && pow256(3) == 16777216);
    assert(((id / 16777216) % 256) * 16777216 + ((id / 65536) % 256) * 65536 + ((id / 256) % 256)
        * 256 + id % 256 == id % 4294967296) by (bit_vector);
    assert(id_byte(id, 3) == (id / 16777216) % 256);
    assert(id_byte(id, 2) == (id / 65536) % 256);
    assert(id_byte(id, 1) == (id / 256) % 256);
    assert(pow256(0) == 1);
    assert(id as nat / 1 == id as nat);
    assert(id_byte(id, 0) == id % 256);
    let o = addr_octets(id);
    assert(o[0] == id_byte(id, 3) && o[1] == id_byte(id, 2) && o[2] == id_byte(id, 1) && o[3]
        == id_byte(id, 0));
}

/// The address of the node whose id is read from an address is that
/// address.
pub proof fn lemma_addr_id_round_trip(a: u8, b: u8, c: u8, d: u8)
    ensures
        addr_octets(octets_id(seq![a, b, c, d]) as u64) == seq![a, b, c, d],
{
    reveal_with_fuel(pow256, 4);
    assert(pow256(1) == 256 && pow256(2) == 65536 && pow256(3) == 16777216);
    let id: u64 = ((a as u64) * 16777216 + (b as u64) * 65536 + (c as u64) * 256 + (d as u64)) as u64;
    assert(octets_id(seq![a, b, c, d]) == id);
    assert((id / 16777216) % 256 == a && (id / 65536) % 256 == b && (id / 256) % 256 == c && id % 256
        == d) by (bit_vector)
        requires
            id == (a as u64) * 16777216 + (b as u64) * 65536 + (c as u64) * 256 + (d as u64),
    ;
    assert(id_byte(id, 3) == (id / 16777216) % 256);
    assert(id_byte(id, 2) == (id / 65536) % 256);
    assert(id_byte(id, 1) == (id / 256) % 256);
    assert(pow256(0) == 1);
    assert(id as nat / 1 == id as nat);
    assert(id_byte(id, 0) == id % 256);
    assert(addr_octets(id) =~= seq![a, b, c, d]);
}

/// The network of the cluster, reached on a fixed port.
pub struct Network {
    port: u16,
}

impl Network {
    /// The port on which the nodes are reached.
    pub closed spec fn spec_port(&self) -> u16 {
        self.port
    }

    /// Creates the network, reached on port 8080.
    pub fn new() -> (res: Self)
        ensures
            res.spec_port() == 8080,
    {
        Self { port: 8080 }
    }
}

} // verus!
