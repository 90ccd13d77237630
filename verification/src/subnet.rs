//! IPv4 addresses and subnets as plain values: an address is its 32-bit
//! number, a subnet a base address and a prefix length.  Formatting and
//! host enumeration are the library's own arithmetic; the caller parses
//! its configuration text into these numbers at its own boundary.

use vstd::prelude::*;

use crate::text::dec_digits;
use crate::text::u64_to_dec;

verus! {

/// The dotted-quad text of an address.
pub open spec fn ipv4_bytes(ip: u32) -> Seq<u8> {
    dec_digits((ip / 0x1000000) as nat) + seq![46u8] + dec_digits(((ip / 0x10000) % 256) as nat)
        + seq![46u8] + dec_digits(((ip / 256) % 256) as nat) + seq![46u8] + dec_digits(
        (ip % 256) as nat,
    )
}

/// Renders an address as dotted-quad text.
pub fn ipv4_to_bytes(ip: u32) -> (r: Vec<u8>)
    ensures
        r@ == ipv4_bytes(ip),
{
    let mut r = u64_to_dec((ip / 0x1000000) as u64);
    r.push(46);
    let mut part = u64_to_dec(((ip / 0x10000) % 256) as u64);
    r.append(&mut part);
    r.push(46);
    let mut part = u64_to_dec(((ip / 256) % 256) as u64);
    r.append(&mut part);
    r.push(46);
    let mut part = u64_to_dec((ip % 256) as u64);
    r.append(&mut part);
    proof {
        assert(r@ =~= ipv4_bytes(ip));
    }
    r
}

/// An IPv4 subnet: a base address and a prefix length.
#[derive(Debug, Clone, Copy, PartialEq, Eq, Structural)]
pub struct Subnet {
    /// Any address inside the subnet; the host bits are ignored.
    pub base: u32,
    /// How many leading bits address the network.
    pub prefix: u8,
}

/// The number of addresses a prefix spans.
pub open spec fn block_size(prefix: u8) -> nat {
    vstd::arithmetic::power2::pow2((32 - prefix) as nat)
}

/// The subnet's network address: the base with its host bits cleared.
pub open spec fn network_of(base: u32, prefix: u8) -> nat {
    (base as nat / block_size(prefix)) * block_size(prefix)
}

/// The attackable hosts of the subnet, in ascending order: every address
/// it spans except the network and broadcast addresses — which a span of
/// one or two addresses does not set aside.
pub open spec fn hosts_of(base: u32, prefix: u8) -> Seq<u32> {
    if prefix >= 31 {
        Seq::new(block_size(prefix), |k: int| (network_of(base, prefix) + k) as u32)
    } else {
        Seq::new(
            (block_size(prefix) - 2) as nat,
            |k: int| (network_of(base, prefix) + 1 + k) as u32,
        )
    }
}

/// Enumerates the subnet's hosts.
pub fn subnet_hosts(subnet: Subnet) -> (r: Vec<u32>)
    requires
        subnet.prefix <= 32,
    ensures
        r@ == hosts_of(subnet.base, subnet.prefix),
{
    let shift: u64 = (32 - subnet.prefix) as u64;
    let block: u64 = 1u64 << shift;
    proof {
        lemma_small_pow2(shift as nat);
        vstd::arithmetic::power2::lemma_pow2_pos(shift as nat);
        assert(block == block_size(subnet.prefix));
        assert(block >= 1);
    }
    let quot: u64 = (subnet.base as u64) / block;
    proof {
        let b = subnet.base as int;
        let bl = block as int;
        let q = vstd::arithmetic::power2::pow2(subnet.prefix as nat) as int;
        vstd::arithmetic::power2::lemma2_to64();
        assert(vstd::arithmetic::power2::pow2(32) == 0x100000000);
        vstd::arithmetic::power2::lemma_pow2_adds(shift as nat, subnet.prefix as nat);
        vstd::arithmetic::power2::lemma_pow2_pos(subnet.prefix as nat);
        assert(bl * q == 0x100000000);
        assert(b < bl * q);
        vstd::arithmetic::div_mod::lemma_multiply_divide_lt(b, bl, q);
        assert(b / bl + 1 <= q);
        vstd::arithmetic::mul::lemma_mul_inequality(b / bl + 1, q, bl);
        assert((b / bl + 1) * bl <= q * bl);
        vstd::arithmetic::mul::lemma_mul_is_distributive_add_other_way(bl, b / bl, 1);
        assert((quot as int + 1) * bl <= 0x100000000);
        assert(quot as int * bl + bl <= 0x100000000);
        if subnet.prefix < 31 {
            vstd::arithmetic::power2::lemma_pow2_strictly_increases(1, shift as nat);
            assert(block >= 2);
        }
    }
    let network: u64 = quot * block;
    let (first, count): (u64, u64) = if subnet.prefix >= 31 {
        (network, block)
    } else {
        (network + 1, block - 2)
    };
    let mut r: Vec<u32> = Vec::new();
    let mut k: u64 = 0;
    while k < count
        invariant
            k <= count,
            first + count <= 0x100000000u64,
            first as int + count as int == network_of(subnet.base, subnet.prefix) + (if subnet
                .prefix >= 31 {
                block_size(subnet.prefix) as int
            } else {
                block_size(subnet.prefix) - 1
            }),
            first as nat == network_of(subnet.base, subnet.prefix) + (if subnet.prefix >= 31 {
                0int
            } else {
                1int
            }),
            count == hosts_of(subnet.base, subnet.prefix).len(),
            r@ =~= hosts_of(subnet.base, subnet.prefix).take(k as int),
        decreases count - k,
    {
        let ip: u32 = (first + k) as u32;
        r.push(ip);
        proof {
            assert(r@ =~= hosts_of(subnet.base, subnet.prefix).take(k + 1));
        }
        k += 1;
    }
    proof {
        let h = hosts_of(subnet.base, subnet.prefix);
        assert(h.take(h.len() as int) =~= h);
    }
    r
}

/// `pow2` of a small exponent is what the shift computes.
proof fn lemma_small_pow2(n: nat)
    requires
        n <= 32,
    ensures
        vstd::arithmetic::power2::pow2(n) < 0x10000000000000000,
        (1u64 << (n as u64)) == vstd::arithmetic::power2::pow2(n),
{
    vstd::arithmetic::power2::lemma2_to64();
    if n < 32 {
        vstd::arithmetic::power2::lemma_pow2_strictly_increases(n, 32);
    }
    assert(1 * (vstd::arithmetic::power2::pow2(n) as int) <= u64::MAX as int);
    vstd::bits::lemma_u64_shl_is_mul(1u64, n as u64);
}

} // verus!
