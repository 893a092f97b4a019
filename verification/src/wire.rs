//! Big-endian byte encodings and socket addresses as they travel on the wire.
use vstd::prelude::*;

verus! {

/// `256^n`.
pub open spec fn pow256(n: nat) -> nat
    decreases n,
{
    if n == 0 {
        1
    } else {
        256 * pow256((n - 1) as nat)
    }
}

/// The number whose big-endian encoding is `b`.
pub open spec fn be_value(b: Seq<u8>) -> nat
    decreases b.len(),
{
    if b.len() == 0 {
        0
    } else {
        be_value(b.drop_last()) * 256 + (b.last() as nat)
    }
}

/// The `n`-byte big-endian encoding of `x` (of `x mod 256^n`).
pub open spec fn be_bytes(x: nat, n: nat) -> Seq<u8>
    decreases n,
{
    if n == 0 {
        Seq::empty()
    } else {
        be_bytes(x / 256, (n - 1) as nat).push((x % 256) as u8)
    }
}

/// An IP address: IPv4 as a 32-bit and IPv6 as a 128-bit number (network order).
#[derive(Clone, Copy, Debug, PartialEq, Eq, Structural)]
pub enum IpAddress {
    V4(u32),
    V6(u128),
}

/// An IP address with a port.
#[derive(Clone, Copy, Debug, PartialEq, Eq, Structural)]
pub struct SocketAddress {
    pub ip: IpAddress,
    pub port: u16,
}

/// `0.0.0.0:0`, the unspecified address.
pub open spec fn spec_unspecified() -> SocketAddress {
    SocketAddress { ip: IpAddress::V4(0), port: 0 }
}

/// `0.0.0.0:0`, the unspecified address.
pub fn unspecified_address() -> (r: SocketAddress)
    ensures
        r == spec_unspecified(),
{
    SocketAddress { ip: IpAddress::V4(0), port: 0 }
}

/// The SOCKS5 encoding of an address: type byte (1 for IPv4, 4 for IPv6), the address
/// bytes and the port, big-endian.
pub open spec fn address_bytes(a: SocketAddress) -> Seq<u8> {
    match a.ip {
        IpAddress::V4(x) => seq![1u8] + be_bytes(x as nat, 4) + be_bytes(a.port as nat, 2),
        IpAddress::V6(x) => seq![4u8] + be_bytes(x as nat, 16) + be_bytes(a.port as nat, 2),
    }
}

pub proof fn lemma_be_bytes_len(x: nat, n: nat)
    ensures
        be_bytes(x, n).len() == n,
    decreases n,
{
    if n > 0 {
        lemma_be_bytes_len(x / 256, (n - 1) as nat);
    }
}

pub proof fn lemma_pow256_positive(n: nat)
    ensures
        pow256(n) > 0,
    decreases n,
{
    if n > 0 {
        lemma_pow256_positive((n - 1) as nat);
    }
}

/// Decoding an encoding gives the number back, modulo `256^n`.
pub proof fn lemma_be_roundtrip(x: nat, n: nat)
    ensures
        be_value(be_bytes(x, n)) == x % pow256(n),
        be_bytes(x, n).len() == n,
    decreases n,
{
    lemma_be_bytes_len(x, n);
    if n == 0 {
        assert(x % 1 == 0);
    } else {
        lemma_be_roundtrip(x / 256, (n - 1) as nat);
        lemma_pow256_positive((n - 1) as nat);
        let b = be_bytes(x, n);
        assert(b.drop_last() == be_bytes(x / 256, (n - 1) as nat));
        vstd::arithmetic::div_mod::lemma_breakdown(x as int, 256, pow256((n - 1) as nat) as int);
        assert(((x % 256) as u8) as nat == x % 256);
    }
}

/// A value of `n` bytes is below `256^n`.
pub proof fn lemma_be_value_bound(b: Seq<u8>)
    ensures
        be_value(b) < pow256(b.len()),
    decreases b.len(),
{
    if b.len() > 0 {
        lemma_be_value_bound(b.drop_last());
        let v = be_value(b.drop_last());
        assert(v * 256 + b.last() < pow256(b.len())) by (nonlinear_arith)
            requires
                v < pow256((b.len() - 1) as nat),
                b.last() < 256,
                pow256(b.len()) == 256 * pow256((b.len() - 1) as nat),
        ;
    }
}

pub proof fn lemma_pow256_values()
    ensures
        pow256(2) == 0x1_0000,
        pow256(4) == 0x1_0000_0000,
        pow256(16) == 0x1_0000_0000_0000_0000_0000_0000_0000_0000,
{
    reveal_with_fuel(pow256, 17);
}

proof fn lemma_pow256_monotone(a: nat, b: nat)
    requires
        a <= b,
    ensures
        pow256(a) <= pow256(b),
    decreases b,
{
    if a < b {
        lemma_pow256_monotone(a, (b - 1) as nat);
        lemma_pow256_positive((b - 1) as nat);
    }
}

/// Reads the big-endian number in `d[start .. start + n]`, for `n <= 16`.
pub fn read_be(d: &[u8], start: usize, n: usize) -> (r: u128)
    requires
        start + n <= d.len(),
        n <= 16,
    ensures
        r as nat == be_value(d@.subrange(start as int, start + n)),
{
    let mut acc: u128 = 0;
    let mut i: usize = start;
    proof {
        lemma_pow256_values();
        assert(d@.subrange(start as int, start as int) =~= Seq::<u8>::empty());
    }
    while i < start + n
        invariant
            start <= i <= start + n,
            start + n <= d.len(),
            n <= 16,
            acc as nat == be_value(d@.subrange(start as int, i as int)),
            pow256(16) == 0x1_0000_0000_0000_0000_0000_0000_0000_0000,
        decreases start + n - i,
    {
        let prefix = Ghost(d@.subrange(start as int, i + 1));
        proof {
            assert(prefix@.drop_last() =~= d@.subrange(start as int, i as int));
            lemma_be_value_bound(prefix@);
            lemma_pow256_monotone((i + 1 - start) as nat, 16);
        }
        acc = acc * 256 + d[i] as u128;
        i = i + 1;
    }
    acc
}

/// Appends the `n`-byte big-endian encoding of `x`.
pub fn push_be(out: &mut Vec<u8>, x: u128, n: usize)
    ensures
        final(out)@ == old(out)@ + be_bytes(x as nat, n as nat),
    decreases n,
{
    if n > 0 {
        push_be(out, x / 256, n - 1);
        out.push((x % 256) as u8);
    } else {
        assert(old(out)@ + be_bytes(x as nat, 0) =~= old(out)@);
    }
}

/// Appends the SOCKS5 encoding of an address (see [`address_bytes`]).
pub fn push_address(out: &mut Vec<u8>, a: SocketAddress)
    ensures
        final(out)@ == old(out)@ + address_bytes(a),
{
    match a.ip {
        IpAddress::V4(x) => {
            out.push(1u8);
            push_be(out, x as u128, 4);
        },
        IpAddress::V6(x) => {
            out.push(4u8);
            push_be(out, x, 16);
        },
    }
    push_be(out, a.port as u128, 2);
    proof {
        match a.ip {
            IpAddress::V4(x) => {
                assert(final(out)@ =~= old(out)@ + address_bytes(a));
            },
            IpAddress::V6(x) => {
                assert(final(out)@ =~= old(out)@ + address_bytes(a));
            },
        }
    }
}

} // verus!
