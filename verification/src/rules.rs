use crate::ip::{IpAddr, Ipv4Addr, Ipv6Addr};
use crate::ruleset::Action;
use vstd::arithmetic::power2::pow2;
use vstd::prelude::*;

verus! {

/// A rule that is ready to be held against requests.
#[derive(Clone, Debug)]
pub struct Rule<E> {
    pub name: String,
    pub expression: Option<E>,
    pub actions: Vec<Action>,
    pub cidr_v4: Option<CidrV4>,
    pub cidr_v6: Option<CidrV6>,
}

/// What an expression can see of a request.
#[derive(Debug)]
pub struct RequestData<'a> {
    pub host: &'a str,
    pub url: &'a str,
    pub path: &'a str,
    pub method: &'a str,
    pub user_agent: &'a str,
}

/// What an expression can see of a client.
#[derive(Clone, Debug)]
pub struct ClientData {
    pub ip: IpAddr,
    // expressions know signed integers only
    pub remote_port: i32,
    pub asn: i64,
    pub country: String,
}

/// What an expression comes to.
#[derive(Clone, Copy, Debug, PartialEq, Eq, Structural)]
pub enum ExpressionValue {
    Bool(bool),
    /// A value of any other type.
    Other,
}

/// Whether a request matches for which an expression came to `outcome`: only where it is true. One
/// that is something else, or that failed, does not match.
pub fn is_match(outcome: Result<ExpressionValue, String>) -> (matched: bool)
    ensures
        matched == (outcome == Ok::<ExpressionValue, String>(ExpressionValue::Bool(true))),
{
    match outcome {
        Ok(value) => value == ExpressionValue::Bool(true),
        Err(_) => false,
    }
}

impl<E> Rule<E> {
    /// Whether the rule matches a request. A rule without an expression matches each one, another
    /// where `execute` says that its expression is true.
    pub fn match_request<C, F: FnOnce(&E, &C) -> Result<ExpressionValue, String>>(
        &self,
        request_ctx: &C,
        execute: F,
    ) -> (matched: bool)
        requires
            self.expression matches Some(expression) ==> call_requires(
                execute,
                (&expression, request_ctx),
            ),
        ensures
            self.expression is None ==> matched,
            self.expression matches Some(expression) ==> exists|
                outcome: Result<ExpressionValue, String>,
            | #[trigger]
                call_ensures(execute, (&expression, request_ctx), outcome) && matched == (outcome
                    == Ok::<ExpressionValue, String>(ExpressionValue::Bool(true))),
    {
        match &self.expression {
            Some(expression) => is_match(execute(expression, request_ctx)),
            None => true,
        }
    }
}

/// Whether the first `prefix` of the `width` bits of `a` and of `b` are the same.
pub open spec fn same_prefix(a: nat, b: nat, prefix: nat, width: nat) -> bool {
    a / pow2((width - prefix) as nat) == b / pow2((width - prefix) as nat)
}

/// A block of IPv4 addresses: those that begin with the first `prefix` bits of `network`.
#[derive(Debug)]
pub struct CidrV4 {
    pub network: Ipv4Addr,
    pub prefix: u32,
    mask: u32,
}

/// A block of IPv6 addresses: those that begin with the first `prefix` bits of `network`.
#[derive(Debug)]
pub struct CidrV6 {
    pub network: Ipv6Addr,
    pub prefix: u128,
    mask: u128,
}

impl Clone for CidrV4 {
    fn clone(&self) -> (copy: CidrV4)
        ensures
            copy == *self,
    {
        CidrV4 { network: self.network, prefix: self.prefix, mask: self.mask }
    }
}

impl CidrV4 {
    /// The prefix is no longer than an address, and the mask keeps its bits.
    pub closed spec fn wf(&self) -> bool {
        &&& self.prefix <= 32
        &&& self.mask == if self.prefix == 0 {
            0u32
        } else {
            u32::MAX << ((32 - self.prefix) as u32)
        }
    }

    /// The bits of the network address.
    pub closed spec fn network_bits(&self) -> nat {
        self.network.bits as nat
    }

    /// The length of the prefix.
    pub closed spec fn prefix_len(&self) -> nat {
        self.prefix as nat
    }

    /// Whether the block holds `ip`.
    pub open spec fn covers(&self, ip: Ipv4Addr) -> bool {
        same_prefix(ip.bits as nat, self.network_bits(), self.prefix_len(), 32)
    }

    /// The block of the addresses that share their first `prefix` bits with `network`.
    pub fn new(network: Ipv4Addr, prefix: u32) -> (block: CidrV4)
        requires
            prefix <= 32,
        ensures
            block.wf(),
            block.network_bits() == network.bits,
            block.prefix_len() == prefix,
    {
        let mask: u32 = if prefix == 0 {
            0
        } else {
            u32::MAX << (32 - prefix)
        };
        CidrV4 { network, prefix, mask }
    }

    /// Whether `ip` is one of the addresses of the block.
    pub fn contains(&self, ip: Ipv4Addr) -> (inside: bool)
        requires
            self.wf(),
        ensures
            inside == self.covers(ip),
    {
        proof {
            lemma_v4_mask_compares_prefix(ip.bits, self.network.bits, self.prefix, self.mask);
        }
        (ip.to_bits() & self.mask) == (self.network.to_bits() & self.mask)
    }
}

impl Clone for CidrV6 {
    fn clone(&self) -> (copy: CidrV6)
        ensures
            copy == *self,
    {
        CidrV6 { network: self.network, prefix: self.prefix, mask: self.mask }
    }
}

impl CidrV6 {
    /// The prefix is no longer than an address, and the mask keeps its bits.
    pub closed spec fn wf(&self) -> bool {
        &&& self.prefix <= 128
        &&& self.mask == if self.prefix == 0 {
            0u128
        } else {
            u128::MAX << ((128 - self.prefix) as u128)
        }
    }

    /// The bits of the network address.
    pub closed spec fn network_bits(&self) -> nat {
        self.network.bits as nat
    }

    /// The length of the prefix.
    pub closed spec fn prefix_len(&self) -> nat {
        self.prefix as nat
    }

    /// Whether the block holds `ip`.
    pub open spec fn covers(&self, ip: Ipv6Addr) -> bool {
        same_prefix(ip.bits as nat, self.network_bits(), self.prefix_len(), 128)
    }

    /// The block of the addresses that share their first `prefix` bits with `network`.
    pub fn new(network: Ipv6Addr, prefix: u128) -> (block: CidrV6)
        requires
            prefix <= 128,
        ensures
            block.wf(),
            block.network_bits() == network.bits,
            block.prefix_len() == prefix,
    {
        let mask: u128 = if prefix == 0 {
            0
        } else {
            u128::MAX << (128 - prefix)
        };
        CidrV6 { network, prefix, mask }
    }

    /// Whether `ip` is one of the addresses of the block.
    pub fn contains(&self, ip: Ipv6Addr) -> (inside: bool)
        requires
            self.wf(),
        ensures
            inside == self.covers(ip),
    {
        proof {
            lemma_v6_mask_compares_prefix(ip.bits, self.network.bits, self.prefix, self.mask);
        }
        (ip.to_bits() & self.mask) == (self.network.to_bits() & self.mask)
    }
}

/// Two addresses agree under the mask of a prefix where they agree in that prefix.
proof fn lemma_v4_mask_compares_prefix(a: u32, b: u32, prefix: u32, mask: u32)
    requires
        prefix <= 32,
        mask == if prefix == 0 {
            0u32
        } else {
            u32::MAX << ((32 - prefix) as u32)
        },
    ensures
        (a & mask == b & mask) == same_prefix(a as nat, b as nat, prefix as nat, 32),
{
    if prefix == 0 {
        vstd::arithmetic::power2::lemma2_to64();
        assert(a & 0u32 == 0 && b & 0u32 == 0) by (bit_vector);
        vstd::arithmetic::div_mod::lemma_basic_div(a as int, pow2(32) as int);
        vstd::arithmetic::div_mod::lemma_basic_div(b as int, pow2(32) as int);
    } else {
        let shift = (32 - prefix) as u32;
        assert((a & (u32::MAX << shift) == b & (u32::MAX << shift)) == (a >> shift == b >> shift))
            by (bit_vector)
            requires
                shift < 32,
        ;
        vstd::bits::lemma_u32_shr_is_div(a, shift);
        vstd::bits::lemma_u32_shr_is_div(b, shift);
    }
}

/// Two addresses agree under the mask of a prefix where they agree in that prefix.
proof fn lemma_v6_mask_compares_prefix(a: u128, b: u128, prefix: u128, mask: u128)
    requires
        prefix <= 128,
        mask == if prefix == 0 {
            0u128
        } else {
            u128::MAX << ((128 - prefix) as u128)
        },
    ensures
        (a & mask == b & mask) == same_prefix(a as nat, b as nat, prefix as nat, 128),
{
    if prefix == 0 {
        lemma_u128_below_pow2_128(a);
        lemma_u128_below_pow2_128(b);
        assert(a & 0u128 == 0 && b & 0u128 == 0) by (bit_vector);
        vstd::arithmetic::div_mod::lemma_basic_div(a as int, pow2(128) as int);
        vstd::arithmetic::div_mod::lemma_basic_div(b as int, pow2(128) as int);
    } else {
        let shift = (128 - prefix) as u128;
        lemma_u128_mask_keeps_high_bits(a, shift);
        lemma_u128_mask_keeps_high_bits(b, shift);
        vstd::bits::lemma_u128_shr_is_div(a, shift);
        vstd::bits::lemma_u128_shr_is_div(b, shift);
    }
}

proof fn lemma_u128_mask_keeps_high_bits(a: u128, shift: u128)
    requires
        shift < 128,
    ensures
        a & (u128::MAX << shift) == (a >> shift) << shift,
        ((a >> shift) << shift) >> shift == a >> shift,
{
    assert(a & (u128::MAX << shift) == (a >> shift) << shift) by (bit_vector)
        requires
            shift < 128,
    ;
    assert(((a >> shift) << shift) >> shift == a >> shift) by (bit_vector)
        requires
            shift < 128,
    ;
}

proof fn lemma_u128_below_pow2_128(a: u128)
    ensures
        a < pow2(128),
{
    vstd::arithmetic::power2::lemma2_to64();
    vstd::arithmetic::power2::lemma_pow2_adds(64, 64);
}

/// What holds of a prefix holds of each shorter one: two addresses that agree in their first
/// `longer` bits agree in their first `shorter` bits.
pub proof fn law_longer_prefix_is_narrower(a: nat, b: nat, shorter: nat, longer: nat, width: nat)
    requires
        shorter <= longer <= width,
        same_prefix(a, b, longer, width),
    ensures
        same_prefix(a, b, shorter, width),
{
    let fine = (width - longer) as nat;
    let extra = (longer - shorter) as nat;
    vstd::arithmetic::power2::lemma_pow2_pos(fine);
    vstd::arithmetic::power2::lemma_pow2_pos(extra);
    vstd::arithmetic::power2::lemma_pow2_adds(fine, extra);
    vstd::arithmetic::div_mod::lemma_div_denominator(a as int, pow2(fine) as int, pow2(extra) as int);
    vstd::arithmetic::div_mod::lemma_div_denominator(b as int, pow2(fine) as int, pow2(extra) as int);
}

/// Two numbers are the same above their lowest bits exactly where they agree in each bit above.
proof fn lemma_same_above_is_bit_by_bit(a: nat, b: nat, low: nat, width: nat)
    requires
        low <= width,
        a < pow2(width),
        b < pow2(width),
    ensures
        a / pow2(low) == b / pow2(low) <==> forall|i: nat|
            low <= i < width ==> (a / #[trigger] pow2(i)) % 2 == (b / pow2(i)) % 2,
    decreases width - low,
{
    vstd::arithmetic::power2::lemma_pow2_pos(low);
    if low == width {
        vstd::arithmetic::div_mod::lemma_basic_div(a as int, pow2(width) as int);
        vstd::arithmetic::div_mod::lemma_basic_div(b as int, pow2(width) as int);
    } else {
        let next = (low + 1) as nat;
        lemma_same_above_is_bit_by_bit(a, b, next, width);
        vstd::arithmetic::power2::lemma_pow2_unfold(next);
        assert(pow2(next) == pow2(low) * 2);
        vstd::arithmetic::div_mod::lemma_div_denominator(a as int, pow2(low) as int, 2);
        vstd::arithmetic::div_mod::lemma_div_denominator(b as int, pow2(low) as int, 2);
        assert(a / pow2(next) == (a / pow2(low)) / 2);
        assert(b / pow2(next) == (b / pow2(low)) / 2);
        if a / pow2(low) == b / pow2(low) {
            assert forall|i: nat| low <= i < width implies (a / #[trigger] pow2(i)) % 2 == (b / pow2(
                i,
            )) % 2 by {
                if i != low {
                    assert(next <= i);
                }
            }
        }
    }
}

/// A block of IPv4 addresses holds an address exactly where each of the first `prefix` bits of the
/// address is that of the network.
pub proof fn law_v4_block_is_bit_by_bit(block: CidrV4, ip: Ipv4Addr)
    requires
        block.wf(),
    ensures
        block.covers(ip) <==> forall|i: nat|
            32 - block.prefix_len() <= i < 32 ==> (ip.bits as nat / #[trigger] pow2(i)) % 2 == (
            block.network_bits() / pow2(i)) % 2,
{
    vstd::arithmetic::power2::lemma2_to64();
    lemma_same_above_is_bit_by_bit(
        ip.bits as nat,
        block.network_bits(),
        (32 - block.prefix_len()) as nat,
        32,
    );
}

/// A block of IPv6 addresses holds an address exactly where each of the first `prefix` bits of the
/// address is that of the network.
pub proof fn law_v6_block_is_bit_by_bit(block: CidrV6, ip: Ipv6Addr)
    requires
        block.wf(),
    ensures
        block.covers(ip) <==> forall|i: nat|
            128 - block.prefix_len() <= i < 128 ==> (ip.bits as nat / #[trigger] pow2(i)) % 2 == (
            block.network_bits() / pow2(i)) % 2,
{
    lemma_u128_below_pow2_128(ip.bits);
    lemma_u128_below_pow2_128(block.network.bits);
    lemma_same_above_is_bit_by_bit(
        ip.bits as nat,
        block.network_bits(),
        (128 - block.prefix_len()) as nat,
        128,
    );
}

/// A block of IPv4 addresses is one run of them: those that begin like the network and go on in any
/// way. An address lies in the block of a network with nothing behind its prefix exactly where it is
/// none below the network and fewer than the size of the block above it.
pub proof fn law_v4_block_is_a_run(block: CidrV4, ip: Ipv4Addr, size: nat)
    requires
        block.wf(),
        size == pow2((32 - block.prefix_len()) as nat),
        block.network_bits() % size == 0,
    ensures
        block.covers(ip) <==> block.network_bits() <= ip.bits < block.network_bits() + size,
{
    lemma_same_quotient_is_a_run(ip.bits as nat, block.network_bits(), size);
}

/// A block of IPv6 addresses is one run of them: those that begin like the network and go on in any
/// way. An address lies in the block of a network with nothing behind its prefix exactly where it is
/// none below the network and fewer than the size of the block above it.
pub proof fn law_v6_block_is_a_run(block: CidrV6, ip: Ipv6Addr, size: nat)
    requires
        block.wf(),
        size == pow2((128 - block.prefix_len()) as nat),
        block.network_bits() % size == 0,
    ensures
        block.covers(ip) <==> block.network_bits() <= ip.bits < block.network_bits() + size,
{
    lemma_same_quotient_is_a_run(ip.bits as nat, block.network_bits(), size);
}

proof fn lemma_same_quotient_is_a_run(a: nat, b: nat, size: nat)
    requires
        size > 0 ==> b % size == 0,
        exists|n: nat| size == pow2(n),
    ensures
        a / size == b / size <==> b <= a < b + size,
{
    let n = choose|n: nat| size == pow2(n);
    vstd::arithmetic::power2::lemma_pow2_pos(n);
    vstd::arithmetic::div_mod::lemma_fundamental_div_mod(a as int, size as int);
    vstd::arithmetic::div_mod::lemma_fundamental_div_mod(b as int, size as int);
    let (p, q) = ((a / size) as int, (b / size) as int);
    if p < q {
        assert(size * p + size <= size * q) by (nonlinear_arith)
            requires
                p < q,
                size > 0,
        ;
    } else if p > q {
        assert(size * q + size <= size * p) by (nonlinear_arith)
            requires
                q < p,
                size > 0,
        ;
    }
}

/// A block is described by its own network and prefix.
proof fn law_v4_block_is_of_its_fields(block: CidrV4)
    ensures
        block.network_bits() == block.network.bits,
        block.prefix_len() == block.prefix,
{
}

/// A block is described by its own network and prefix.
proof fn law_v6_block_is_of_its_fields(block: CidrV6)
    ensures
        block.network_bits() == block.network.bits,
        block.prefix_len() == block.prefix,
{
}

/// A block of IPv4 addresses holds its network address. With an empty prefix it holds every
/// address, with a full one no other.
pub proof fn law_v4_block_extremes(block: CidrV4, ip: Ipv4Addr)
    requires
        block.wf(),
    ensures
        ip.bits == block.network_bits() ==> block.covers(ip),
        block.prefix_len() == 0 ==> block.covers(ip),
        block.prefix_len() == 32 ==> block.covers(ip) == (ip.bits == block.network_bits()),
{
    vstd::arithmetic::power2::lemma2_to64();
    vstd::arithmetic::div_mod::lemma_basic_div(ip.bits as int, pow2(32) as int);
    vstd::arithmetic::div_mod::lemma_basic_div(block.network.bits as int, pow2(32) as int);
    vstd::arithmetic::div_mod::lemma_div_basics(ip.bits as int);
    vstd::arithmetic::div_mod::lemma_div_basics(block.network.bits as int);
}

/// A block of IPv6 addresses holds its network address. With an empty prefix it holds every
/// address, with a full one no other.
pub proof fn law_v6_block_extremes(block: CidrV6, ip: Ipv6Addr)
    requires
        block.wf(),
    ensures
        ip.bits == block.network_bits() ==> block.covers(ip),
        block.prefix_len() == 0 ==> block.covers(ip),
        block.prefix_len() == 128 ==> block.covers(ip) == (ip.bits == block.network_bits()),
{
    vstd::arithmetic::power2::lemma2_to64();
    lemma_u128_below_pow2_128(ip.bits);
    lemma_u128_below_pow2_128(block.network.bits);
    vstd::arithmetic::div_mod::lemma_basic_div(ip.bits as int, pow2(128) as int);
    vstd::arithmetic::div_mod::lemma_basic_div(block.network.bits as int, pow2(128) as int);
    vstd::arithmetic::div_mod::lemma_div_basics(ip.bits as int);
    vstd::arithmetic::div_mod::lemma_div_basics(block.network.bits as int);
}

/// Two blocks of IPv4 addresses are nested or apart: where they share an address, the one with the
/// longer prefix lies within the other.
pub proof fn law_v4_blocks_nest(outer: CidrV4, inner: CidrV4, shared: Ipv4Addr, ip: Ipv4Addr)
    requires
        outer.wf(),
        inner.wf(),
        outer.prefix_len() <= inner.prefix_len(),
        outer.covers(shared),
        inner.covers(shared),
        inner.covers(ip),
    ensures
        outer.covers(ip),
{
    law_longer_prefix_is_narrower(
        ip.bits as nat,
        shared.bits as nat,
        outer.prefix_len(),
        inner.prefix_len(),
        32,
    );
}

/// Two blocks of IPv6 addresses are nested or apart: where they share an address, the one with the
/// longer prefix lies within the other.
pub proof fn law_v6_blocks_nest(outer: CidrV6, inner: CidrV6, shared: Ipv6Addr, ip: Ipv6Addr)
    requires
        outer.wf(),
        inner.wf(),
        outer.prefix_len() <= inner.prefix_len(),
        outer.covers(shared),
        inner.covers(shared),
        inner.covers(ip),
    ensures
        outer.covers(ip),
{
    law_longer_prefix_is_narrower(
        ip.bits as nat,
        shared.bits as nat,
        outer.prefix_len(),
        inner.prefix_len(),
        128,
    );
}

} // verus!
