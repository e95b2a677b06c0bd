//! The subnet of an interface and the host addresses it holds.
//!
//! The subnet arithmetic itself is `ipnetwork`'s; this module states what it
//! computes, bit by bit, and proves from that what the scan relies on: the
//! subnet is one aligned block of addresses, and the host list is that block
//! without its first and last address, in ascending order.

use vstd::prelude::*;
use vstd::arithmetic::div_mod::{lemma_fundamental_div_mod, lemma_fundamental_div_mod_converse};
use vstd::arithmetic::power2::{lemma2_to64, lemma2_to64_rest, pow2};
use vstd::bits::lemma_u32_shl_is_mul;
use ipnetwork::Ipv4Network;
use crate::models::{InterfaceInfo, ScanError};

verus! {

/// The network mask of a prefix length: `prefix` leading one bits.
pub open spec fn netmask(prefix: u8) -> u32 {
    if prefix == 0 {
        0u32
    } else {
        0xFFFF_FFFFu32 << ((32 - prefix) as u32)
    }
}

/// The mask by which membership in a network is tested. For the prefix
/// lengths of IPv4 it is the network mask.
pub open spec fn membership_mask(prefix: u8) -> u32 {
    (!(0xFFFF_FFFFu64 >> (prefix as u64))) as u32
}

/// How many addresses the address iterator of a network yields: all of them,
/// but for `/0`, where it stops one short of `255.255.255.255`.
pub open spec fn address_count(prefix: u8) -> u32 {
    if prefix == 0 {
        0xFFFF_FFFFu32
    } else {
        1u32 << ((32 - prefix) as u32)
    }
}

/// How many addresses a network of this prefix length holds.
pub open spec fn block_size(prefix: u8) -> int {
    pow2((32 - prefix) as nat) as int
}

/// The distance from the first to the last address of a network.
pub open spec fn span(prefix: u8) -> int {
    block_size(prefix) - 1
}

/// `ipnetwork`'s error, carried through unread.
#[verifier::external_type_specification]
#[verifier::external_body]
pub struct ExIpNetworkError(ipnetwork::IpNetworkError);

/// `Ipv4Network::new` followed by `Ipv4Network::network`. The constructor
/// refuses exactly the prefix lengths above 32; the network address is the
/// given address with the bits outside the mask cleared.
#[verifier::external_body]
fn ipnet_network(addr: u32, prefix: u8) -> (r: Result<u32, ipnetwork::IpNetworkError>)
    ensures
        r is Ok <==> prefix <= 32,
        r matches Ok(network) ==> network == addr & netmask(prefix),
{
    match Ipv4Network::new(addr.into(), prefix) {
        Ok(net) => Ok(net.network().into()),
        Err(e) => Err(e),
    }
}

/// `Ipv4Network::new` followed by `Ipv4Network::broadcast`: the given address
/// with the bits outside the mask set.
#[verifier::external_body]
fn ipnet_broadcast(addr: u32, prefix: u8) -> (r: Result<u32, ipnetwork::IpNetworkError>)
    ensures
        r is Ok <==> prefix <= 32,
        r matches Ok(broadcast) ==> broadcast == addr | !netmask(prefix),
{
    match Ipv4Network::new(addr.into(), prefix) {
        Ok(net) => Ok(net.broadcast().into()),
        Err(e) => Err(e),
    }
}

/// `Ipv4Network::new` followed by `Ipv4Network::contains`: an address is in
/// the network when it agrees with the network's address on the bits of the
/// membership mask.
#[verifier::external_body]
fn ipnet_contains(addr: u32, prefix: u8, ip: u32) -> (r: Result<bool, ipnetwork::IpNetworkError>)
    ensures
        r is Ok <==> prefix <= 32,
        r matches Ok(inside) ==> inside == (ip & membership_mask(prefix) == addr
            & membership_mask(prefix)),
{
    match Ipv4Network::new(addr.into(), prefix) {
        Ok(net) => Ok(net.contains(ip.into())),
        Err(e) => Err(e),
    }
}

/// `Ipv4Network::new` followed by `Ipv4Network::iter`, collected: the
/// addresses from the network address upwards, `address_count` of them.
#[verifier::external_body]
fn ipnet_addresses(addr: u32, prefix: u8) -> (r: Result<Vec<u32>, ipnetwork::IpNetworkError>)
    ensures
        r is Ok <==> prefix <= 32,
        r matches Ok(all) ==> {
            &&& all@.len() == address_count(prefix)
            &&& forall|i: int|
                0 <= i < all@.len() ==> #[trigger] all@[i] == (addr & netmask(prefix)) + i
        },
{
    match Ipv4Network::new(addr.into(), prefix) {
        Ok(net) => Ok(net.iter().map(u32::from).collect()),
        Err(e) => Err(e),
    }
}

/// An IPv4 network: its first address, its last address and its prefix length.
#[derive(Clone, Copy, Debug)]
pub struct Subnet {
    network: u32,
    broadcast: u32,
    prefix: u8,
}

/// The subnet that holds `addr` under the prefix length `prefix`.
pub closed spec fn subnet_of(addr: u32, prefix: u8) -> Subnet {
    Subnet { network: addr & netmask(prefix), broadcast: addr | !netmask(prefix), prefix }
}

impl Subnet {
    /// The network address.
    pub closed spec fn spec_network(&self) -> u32 {
        self.network
    }

    /// The broadcast address.
    pub closed spec fn spec_broadcast(&self) -> u32 {
        self.broadcast
    }

    /// The prefix length.
    pub closed spec fn spec_prefix(&self) -> u8 {
        self.prefix
    }

    /// The subnet is the block of `2^(32 - prefix)` addresses, aligned to its
    /// size, that starts at the network address and ends at the broadcast
    /// address. This holds of every subnet value.
    #[verifier::type_invariant]
    pub open spec fn wf(&self) -> bool {
        &&& self.spec_prefix() <= 32
        &&& self.spec_network() & netmask(self.spec_prefix()) == self.spec_network()
        &&& self.spec_broadcast() == self.spec_network() | !netmask(self.spec_prefix())
        &&& self.spec_network() as int % block_size(self.spec_prefix()) == 0
        &&& self.spec_broadcast() == self.spec_network() + span(self.spec_prefix())
    }

    /// Whether `ip` lies in the subnet.
    pub open spec fn contains_addr(&self, ip: u32) -> bool {
        self.spec_network() <= ip <= self.spec_broadcast()
    }

    /// Whether `ip` is the network or the broadcast address.
    pub open spec fn is_special(&self, ip: u32) -> bool {
        ip == self.spec_network() || ip == self.spec_broadcast()
    }

    /// How many addresses lie strictly between the network and the broadcast
    /// address.
    pub open spec fn host_count(&self) -> nat {
        if self.spec_broadcast() - self.spec_network() >= 2 {
            (self.spec_broadcast() - self.spec_network() - 1) as nat
        } else {
            0
        }
    }

    /// The addresses to scan: those strictly between the network and the
    /// broadcast address, in ascending order.
    pub open spec fn hosts(&self) -> Seq<u32> {
        Seq::new(self.host_count(), |i: int| (self.spec_network() + 1 + i) as u32)
    }

    /// The subnet that holds `addr` under the given prefix length. Prefix
    /// lengths above 32 are refused.
    pub fn new(addr: u32, prefix: u8) -> (r: Result<Subnet, ScanError>)
        ensures
            r is Ok <==> prefix <= 32,
            r matches Ok(subnet) ==> {
                &&& subnet == subnet_of(addr, prefix)
                &&& subnet.wf()
                &&& subnet.spec_prefix() == prefix
                &&& subnet.spec_network() == addr & netmask(prefix)
                &&& subnet.spec_network() == addr - addr as int % block_size(prefix)
                &&& subnet.contains_addr(addr)
            },
            r matches Err(e) ==> e == (ScanError::InvalidSubnet { prefix_len: prefix }),
    {
        let network = match ipnet_network(addr, prefix) {
            Ok(network) => network,
            Err(_) => {
                return Err(ScanError::InvalidSubnet { prefix_len: prefix });
            },
        };
        let broadcast = match ipnet_broadcast(network, prefix) {
            Ok(broadcast) => broadcast,
            Err(_) => {
                return Err(ScanError::InvalidSubnet { prefix_len: prefix });
            },
        };
        proof {
            lemma_block(addr, prefix);
        }
        Ok(Subnet { network, broadcast, prefix })
    }

    /// The network address.
    #[verifier::when_used_as_spec(spec_network)]
    pub fn network(&self) -> (r: u32)
        ensures
            r == self.spec_network(),
    {
        self.network
    }

    /// The broadcast address.
    #[verifier::when_used_as_spec(spec_broadcast)]
    pub fn broadcast(&self) -> (r: u32)
        ensures
            r == self.spec_broadcast(),
    {
        self.broadcast
    }

    /// The prefix length.
    #[verifier::when_used_as_spec(spec_prefix)]
    pub fn prefix(&self) -> (r: u8)
        ensures
            r == self.spec_prefix(),
    {
        self.prefix
    }

    /// Whether `ip` lies in the subnet.
    pub fn contains(&self, ip: u32) -> (r: bool)
        ensures
            r == self.contains_addr(ip),
    {
        proof {
            use_type_invariant(self);
            lemma_membership(self.network, self.prefix, ip);
        }
        match ipnet_contains(self.network, self.prefix, ip) {
            Ok(inside) => inside,
            Err(_) => false,
        }
    }
}

/// The mask arithmetic of a network, read as integers: the network address
/// is `addr` rounded down to a multiple of the block size, and the broadcast
/// address lies one block size minus one above it.
proof fn lemma_block(addr: u32, prefix: u8)
    requires
        prefix <= 32,
    ensures
        ({
            let network = addr & netmask(prefix);
            let broadcast = network | !netmask(prefix);
            &&& network & netmask(prefix) == network
            &&& broadcast == addr | !netmask(prefix)
            &&& network <= addr <= broadcast
            &&& broadcast == network + span(prefix)
            &&& network as int % block_size(prefix) == 0
            &&& network == addr - addr as int % block_size(prefix)
        }),
{
    let network = addr & netmask(prefix);
    let broadcast = network | !netmask(prefix);
    assert(prefix <= 32 ==> (addr & netmask(prefix)) & netmask(prefix) == addr & netmask(prefix))
        by (bit_vector);
    assert(prefix <= 32 ==> (addr & netmask(prefix)) | !netmask(prefix) == addr | !netmask(
        prefix,
    )) by (bit_vector);
    assert(prefix <= 32 ==> addr & netmask(prefix) <= addr) by (bit_vector);
    assert(prefix <= 32 ==> addr <= addr | !netmask(prefix)) by (bit_vector);
    assert(prefix <= 32 ==> (addr | !netmask(prefix)) - (addr & netmask(prefix)) == (
    address_count(prefix) - 1) as u32 || prefix == 0) by (bit_vector);
    assert(prefix == 0 ==> (addr | !netmask(prefix)) - (addr & netmask(prefix)) == 0xFFFF_FFFFu32)
        by (bit_vector);
    lemma_span(prefix);
    assert(broadcast - network == span(prefix));
    // The network address is a multiple of the block size.
    if prefix == 0 {
        assert(0xFFFF_FFFFu32 & 0u32 == 0u32) by (bit_vector);
        assert(network == 0) by (bit_vector)
            requires
                network == addr & 0u32,
        ;
        assert(addr as int % 0x1_0000_0000int == addr);
    } else {
        let k: u32 = (32 - prefix) as u32;
        let size: u32 = 1u32 << k;
        assert(size == span(prefix) + 1);
        assert(k < 32 ==> (addr & (0xFFFF_FFFFu32 << k)) % (1u32 << k) == 0) by (bit_vector);
        let q: int = network as int / size as int;
        lemma_fundamental_div_mod(network as int, size as int);
        lemma_fundamental_div_mod_converse(addr as int, size as int, q, addr - network);
    }
}

/// The address iterator's count and the block size as powers of two.
proof fn lemma_span(prefix: u8)
    requires
        prefix <= 32,
    ensures
        0 <= span(prefix) <= 0xFFFF_FFFF,
        prefix >= 1 ==> address_count(prefix) == span(prefix) + 1,
        prefix == 0 ==> span(prefix) == 0xFFFF_FFFF,
        prefix == 32 ==> span(prefix) == 0,
        prefix == 31 ==> span(prefix) == 1,
        prefix == 30 ==> span(prefix) == 3,
        prefix <= 30 ==> span(prefix) >= 3,
{
    lemma2_to64();
    lemma2_to64_rest();
    let k: nat = (32 - prefix) as nat;
    if prefix >= 1 {
        vstd::arithmetic::power2::lemma_pow2_strictly_increases(k, 32);
        lemma_u32_shl_is_mul(1u32, k as u32);
    }
    if prefix < 30 {
        vstd::arithmetic::power2::lemma_pow2_strictly_increases(2, k);
    }
}

/// Agreement on the bits of the membership mask is membership in the block.
proof fn lemma_membership(network: u32, prefix: u8, ip: u32)
    requires
        prefix <= 32,
        network & netmask(prefix) == network,
    ensures
        (ip & membership_mask(prefix) == network & membership_mask(prefix)) <==> (network <= ip
            && ip <= (network | !netmask(prefix))),
{
    assert(prefix <= 32 ==> membership_mask(prefix) == netmask(prefix)) by (bit_vector);
    assert(prefix <= 32 && network & netmask(prefix) == network ==> ((ip & netmask(prefix)
        == network & netmask(prefix)) <==> (network <= ip && ip <= (network | !netmask(prefix)))))
        by (bit_vector);
}

/// The subnet that holds an address is well formed, starts at the address
/// rounded down to a multiple of the block size, and holds the address.
pub proof fn lemma_subnet_of(addr: u32, prefix: u8)
    requires
        prefix <= 32,
    ensures
        subnet_of(addr, prefix).wf(),
        subnet_of(addr, prefix).spec_prefix() == prefix,
        subnet_of(addr, prefix).spec_network() == addr - addr as int % block_size(prefix),
        subnet_of(addr, prefix).contains_addr(addr),
{
    lemma_block(addr, prefix);
}

/// Whether `ip` is the network or the broadcast address of `subnet`.
pub fn is_special_address(ip: u32, subnet: &Subnet) -> (r: bool)
    ensures
        r == subnet.is_special(ip),
{
    ip == subnet.network() || ip == subnet.broadcast()
}

/// The subnet of an interface and its host addresses: every address of the
/// subnet but the network and the broadcast address, in ascending order.
/// Fails when the prefix length is above 32.
pub fn calculate_subnet_ips(interface: &InterfaceInfo) -> (r: Result<(Subnet, Vec<u32>), ScanError>)
    ensures
        r is Ok <==> interface.prefix_len <= 32,
        r matches Ok((subnet, ips)) ==> {
            &&& subnet == subnet_of(interface.ip, interface.prefix_len)
            &&& subnet.wf()
            &&& subnet.spec_prefix() == interface.prefix_len
            &&& subnet.spec_network() == interface.ip & netmask(interface.prefix_len)
            &&& subnet.spec_network() == interface.ip - interface.ip as int % block_size(
                interface.prefix_len,
            )
            &&& subnet.contains_addr(interface.ip)
            &&& ips@ == subnet.hosts()
        },
        r matches Err(e) ==> e == (ScanError::InvalidSubnet { prefix_len: interface.prefix_len }),
{
    let subnet = match Subnet::new(interface.ip, interface.prefix_len) {
        Ok(subnet) => subnet,
        Err(e) => {
            return Err(e);
        },
    };
    let all = match ipnet_addresses(subnet.network(), subnet.prefix()) {
        Ok(all) => all,
        Err(_) => {
            return Err(ScanError::InvalidSubnet { prefix_len: interface.prefix_len });
        },
    };
    proof {
        lemma_span(subnet.spec_prefix());
    }
    let mut ips: Vec<u32> = Vec::new();
    let mut i: usize = 0;
    while i < all.len()
        invariant
            subnet.wf(),
            0 <= i <= all@.len(),
            all@.len() == address_count(subnet.spec_prefix()),
            span(subnet.spec_prefix()) <= all@.len() <= span(subnet.spec_prefix()) + 1,
            forall|k: int| 0 <= k < all@.len() ==> #[trigger] all@[k] == subnet.spec_network() + k,
            ips@.len() == (if i == 0 {
                0
            } else if i - 1 <= subnet.host_count() {
                i - 1
            } else {
                subnet.host_count() as int
            }),
            forall|k: int| 0 <= k < ips@.len() ==> #[trigger] ips@[k] == subnet.spec_network() + 1 + k,
        decreases all@.len() - i,
    {
        let ip = all[i];
        if !is_special_address(ip, &subnet) {
            ips.push(ip);
        }
        i += 1;
    }
    assert(ips@ =~= subnet.hosts());
    Ok((subnet, ips))
}

/// The host list holds exactly the addresses of the subnet other than the
/// network and the broadcast address, each of them once, in ascending order.
/// A `/30` has two hosts; a `/31` and a `/32` have none.
pub proof fn lemma_hosts_exact(subnet: Subnet)
    requires
        subnet.wf(),
    ensures
        forall|ip: u32|
            subnet.hosts().contains(ip) <==> subnet.contains_addr(ip) && !subnet.is_special(ip),
        subnet.hosts().no_duplicates(),
        forall|i: int, j: int|
            0 <= i < j < subnet.hosts().len() ==> subnet.hosts()[i] < subnet.hosts()[j],
        subnet.spec_prefix() >= 31 ==> subnet.hosts().len() == 0,
        subnet.spec_prefix() <= 30 ==> subnet.hosts().len() == pow2(
            (32 - subnet.spec_prefix()) as nat,
        ) - 2,
        subnet.spec_prefix() == 30 ==> subnet.hosts().len() == 2,
{
    lemma_span(subnet.spec_prefix());
    let hosts = subnet.hosts();
    assert forall|ip: u32| subnet.contains_addr(ip) && !subnet.is_special(ip) implies hosts.contains(
        ip,
    ) by {
        let k: int = ip - subnet.spec_network() - 1;
        assert(hosts[k] == ip);
    }
}

} // verus!
