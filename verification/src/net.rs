//! Network addresses as plain integers.

use vstd::prelude::*;

use crate::text::{self, push_decimal, push_text};

verus! {

/// An IP address. The octets are read as one big-endian integer.
#[derive(Clone, Copy, Debug, PartialEq, Eq, Structural)]
pub enum IpAddr {
    V4(u32),
    V6(u128),
}

/// An IP address with a port. `flowinfo` and `scope_id` are zero for IPv4.
#[derive(Clone, Copy, Debug, PartialEq, Eq, Structural)]
pub struct SocketAddr {
    pub ip: IpAddr,
    pub port: u16,
    pub flowinfo: u32,
    pub scope_id: u32,
}

/// An IPv4 address in dotted decimal.
pub open spec fn v4_text(ip: u32) -> Seq<char> {
    text::decimal((ip / 0x100_0000) as nat) + "."@ + text::decimal(((ip / 0x1_0000) % 256) as nat)
        + "."@ + text::decimal(((ip / 256) % 256) as nat) + "."@ + text::decimal((ip % 256) as nat)
}

/// The eight 16-bit groups of an IPv6 address.
pub open spec fn v6_groups(ip: u128) -> Seq<u16> {
    seq![
        (ip / 0x1_0000_0000_0000_0000_0000_0000_0000) as u16,
        ((ip / 0x1_0000_0000_0000_0000_0000_0000) % 0x1_0000) as u16,
        ((ip / 0x1_0000_0000_0000_0000_0000) % 0x1_0000) as u16,
        ((ip / 0x1_0000_0000_0000_0000) % 0x1_0000) as u16,
        ((ip / 0x1_0000_0000_0000) % 0x1_0000) as u16,
        ((ip / 0x1_0000_0000) % 0x1_0000) as u16,
        ((ip / 0x1_0000) % 0x1_0000) as u16,
        (ip % 0x1_0000) as u16,
    ]
}

/// The number of zero groups from `i` on.
pub open spec fn zeros_at(g: Seq<u16>, i: int) -> int
    decreases g.len() - i,
{
    if 0 <= i < g.len() && g[i] == 0 {
        1 + zeros_at(g, i + 1)
    } else {
        0
    }
}

/// The start of the longest run of zero groups among those that start before
/// `i`; the first such run if there are several.
pub open spec fn longest_zeros_before(g: Seq<u16>, i: int) -> int
    decreases i,
{
    if i <= 1 {
        0
    } else {
        let best = longest_zeros_before(g, i - 1);
        if zeros_at(g, i - 1) > zeros_at(g, best) {
            i - 1
        } else {
            best
        }
    }
}

/// Groups in lowercase hexadecimal, separated by colons.
pub open spec fn groups_text(g: Seq<u16>) -> Seq<char>
    decreases g.len(),
{
    if g.len() == 0 {
        seq![]
    } else if g.len() == 1 {
        text::hex(g[0] as nat)
    } else {
        groups_text(g.drop_last()) + ":"@ + text::hex(g.last() as nat)
    }
}

/// An IPv6 address in its canonical text form: the longest run of at least two
/// zero groups is left out, and an IPv4-mapped address ends in dotted decimal.
pub open spec fn v6_text(ip: u128) -> Seq<char> {
    let g = v6_groups(ip);
    let at = longest_zeros_before(g, 8);
    let n = zeros_at(g, at);
    if ip / 0x1_0000_0000 == 0xFFFF {
        "::ffff:"@ + v4_text((ip % 0x1_0000_0000) as u32)
    } else if n > 1 {
        groups_text(g.take(at)) + "::"@ + groups_text(g.skip(at + n))
    } else {
        groups_text(g)
    }
}

impl IpAddr {
    /// The address as text.
    pub open spec fn text(self) -> Seq<char> {
        match self {
            IpAddr::V4(ip) => v4_text(ip),
            IpAddr::V6(ip) => v6_text(ip),
        }
    }

    /// The address as text.
    pub fn to_text(&self) -> (r: String)
        ensures
            r@ == self.text(),
    {
        let mut out = String::new();
        assert(out@ =~= Seq::<char>::empty());
        match self {
            IpAddr::V4(ip) => {
                push_v4(&mut out, *ip);
                assert(Seq::<char>::empty() + v4_text(*ip) =~= v4_text(*ip));
            },
            IpAddr::V6(ip) => {
                push_v6(&mut out, *ip);
                assert(Seq::<char>::empty() + v6_text(*ip) =~= v6_text(*ip));
            },
        }
        out
    }

    /// Whether this is an IPv4 address.
    pub fn is_ipv4(&self) -> (r: bool)
        ensures
            r == (*self is V4),
    {
        match self {
            IpAddr::V4(_) => true,
            IpAddr::V6(_) => false,
        }
    }
}

fn push_v4(out: &mut String, ip: u32)
    ensures
        final(out)@ == old(out)@ + v4_text(ip),
{
    let ghost before = out@;
    push_decimal(out, (ip / 0x100_0000) as u64);
    push_text(out, ".");
    push_decimal(out, ((ip / 0x1_0000) % 256) as u64);
    push_text(out, ".");
    push_decimal(out, ((ip / 256) % 256) as u64);
    push_text(out, ".");
    push_decimal(out, (ip % 256) as u64);
    assert(out@ =~= before + v4_text(ip));
}

fn count_zeros(g: &Vec<u16>, from: usize) -> (r: usize)
    requires
        from <= g.len(),
    ensures
        r == zeros_at(g@, from as int),
        from + r <= g.len(),
    decreases g.len() - from,
{
    if from < g.len() && g[from] == 0 {
        1 + count_zeros(g, from + 1)
    } else {
        0
    }
}

fn push_groups(out: &mut String, g: &Vec<u16>, from: usize, to: usize)
    requires
        from <= to <= g.len(),
    ensures
        final(out)@ == old(out)@ + groups_text(g@.subrange(from as int, to as int)),
{
    let ghost before = out@;
    let mut i: usize = from;
    assert(out@ =~= before + groups_text(g@.subrange(from as int, from as int)));
    while i < to
        invariant
            from <= i <= to <= g.len(),
            out@ == before + groups_text(g@.subrange(from as int, i as int)),
        decreases to - i,
    {
        let ghost part = g@.subrange(from as int, i + 1);
        assert(part.drop_last() =~= g@.subrange(from as int, i as int));
        if i > from {
            push_text(out, ":");
        }
        text::push_hex(out, g[i] as u64);
        assert(out@ =~= before + groups_text(part));
        i += 1;
    }
}

fn push_v6(out: &mut String, ip: u128)
    ensures
        final(out)@ == old(out)@ + v6_text(ip),
{
    let ghost before = out@;
    if ip / 0x1_0000_0000 == 0xFFFF {
        push_text(out, "::ffff:");
        push_v4(out, (ip % 0x1_0000_0000) as u32);
        assert(out@ =~= before + v6_text(ip));
        return;
    }
    let g: Vec<u16> = vec![
        (ip / 0x1_0000_0000_0000_0000_0000_0000_0000) as u16,
        ((ip / 0x1_0000_0000_0000_0000_0000_0000) % 0x1_0000) as u16,
        ((ip / 0x1_0000_0000_0000_0000_0000) % 0x1_0000) as u16,
        ((ip / 0x1_0000_0000_0000_0000) % 0x1_0000) as u16,
        ((ip / 0x1_0000_0000_0000) % 0x1_0000) as u16,
        ((ip / 0x1_0000_0000) % 0x1_0000) as u16,
        ((ip / 0x1_0000) % 0x1_0000) as u16,
        (ip % 0x1_0000) as u16,
    ];
    assert(g@ =~= v6_groups(ip));
    let mut best: usize = 0;
    let mut most: usize = count_zeros(&g, 0);
    let mut i: usize = 1;
    while i < 8
        invariant
            1 <= i <= 8,
            g.len() == 8,
            best < i,
            best == longest_zeros_before(g@, i as int),
            most == zeros_at(g@, best as int),
            best + most <= 8,
        decreases 8 - i,
    {
        let n: usize = count_zeros(&g, i);
        if n > most {
            most = n;
            best = i;
        }
        i += 1;
    }
    if most > 1 {
        push_groups(out, &g, 0, best);
        push_text(out, "::");
        push_groups(out, &g, best + most, 8);
        assert(g@.subrange(0, best as int) =~= g@.take(best as int));
        assert(g@.subrange(best + most, 8) =~= g@.skip(best + most));
    } else {
        push_groups(out, &g, 0, 8);
        assert(g@.subrange(0, 8) =~= g@);
    }
    assert(out@ =~= before + v6_text(ip));
}

/// The text of an IPv4 address is its four octets in decimal, the first one first, with
/// dots between them.
pub proof fn octets_are_told_in_order(a: u8, b: u8, c: u8, d: u8)
    ensures
        v4_text((a * 0x100_0000 + b * 0x1_0000 + c * 0x100 + d) as u32) == text::decimal(a as nat)
            + "."@ + text::decimal(b as nat) + "."@ + text::decimal(c as nat) + "."@
            + text::decimal(d as nat),
{
    let ip = (a * 0x100_0000 + b * 0x1_0000 + c * 0x100 + d) as u32;
    assert(ip / 0x100_0000 == a);
    assert((ip / 0x1_0000) % 256 == b);
    assert((ip / 256) % 256 == c);
    assert(ip % 256 == d);
}

/// The groups of an IPv6 address are its sixteen-bit parts, the first one first.
pub proof fn groups_make_up_the_address(ip: u128)
    ensures
        v6_groups(ip).len() == 8,
        ({
            let g = v6_groups(ip);
            ip == ((((((g[0] * 0x1_0000 + g[1]) * 0x1_0000 + g[2]) * 0x1_0000 + g[3]) * 0x1_0000
                + g[4]) * 0x1_0000 + g[5]) * 0x1_0000 + g[6]) * 0x1_0000 + g[7]
        }),
{
    let a = ip / 0x1_0000;
    let b = ip / 0x1_0000_0000;
    let c = ip / 0x1_0000_0000_0000;
    let d = ip / 0x1_0000_0000_0000_0000;
    let e = ip / 0x1_0000_0000_0000_0000_0000;
    let f = ip / 0x1_0000_0000_0000_0000_0000_0000;
    let h = ip / 0x1_0000_0000_0000_0000_0000_0000_0000;
    assert(ip == a * 0x1_0000 + ip % 0x1_0000);
    assert(b == a / 0x1_0000 && a == b * 0x1_0000 + a % 0x1_0000);
    assert(c == b / 0x1_0000 && b == c * 0x1_0000 + b % 0x1_0000);
    assert(d == c / 0x1_0000 && c == d * 0x1_0000 + c % 0x1_0000);
    assert(e == d / 0x1_0000 && d == e * 0x1_0000 + d % 0x1_0000);
    assert(f == e / 0x1_0000 && e == f * 0x1_0000 + e % 0x1_0000);
    assert(h == f / 0x1_0000 && f == h * 0x1_0000 + f % 0x1_0000);
    assert(h < 0x1_0000);
}

/// A run of zero groups is as long as it can be.
pub proof fn zeros_are_counted(g: Seq<u16>, i: int)
    requires
        0 <= i <= g.len(),
    ensures
        0 <= zeros_at(g, i) <= g.len() - i,
        forall|j: int| i <= j < i + zeros_at(g, i) ==> #[trigger] g[j] == 0,
        i + zeros_at(g, i) < g.len() ==> g[i + zeros_at(g, i)] != 0,
    decreases g.len() - i,
{
    if i < g.len() && g[i] == 0 {
        zeros_are_counted(g, i + 1);
    }
}

/// The run of zero groups that is left out is a longest one, and the first of those.
pub proof fn first_longest_run_is_left_out(g: Seq<u16>, n: int)
    requires
        1 <= n <= g.len(),
    ensures
        ({
            let best = longest_zeros_before(g, n);
            &&& 0 <= best < n
            &&& forall|i: int| 0 <= i < n ==> #[trigger] zeros_at(g, i) <= zeros_at(g, best)
            &&& forall|i: int| 0 <= i < best ==> #[trigger] zeros_at(g, i) < zeros_at(g, best)
        }),
    decreases n,
{
    if n > 1 {
        first_longest_run_is_left_out(g, n - 1);
    }
}

/// Groups are written one after the other with colons between them, each without leading
/// zeros.
pub proof fn groups_are_told_in_order(g: Seq<u16>, n: u16)
    ensures
        g.len() == 0 ==> groups_text(g.push(n)) == text::hex(n as nat),
        g.len() > 0 ==> groups_text(g.push(n)) == groups_text(g) + ":"@ + text::hex(n as nat),
        groups_text(Seq::<u16>::empty()).len() == 0,
{
    assert(g.push(n).drop_last() =~= g);
}

/// An address that is an IPv4 address in disguise is told as one; of any other, the first
/// longest run of zero groups is told as two colons, if it is longer than one.
pub proof fn address_text_has_three_forms(ip: u128)
    ensures
        ({
            let g = v6_groups(ip);
            let at = longest_zeros_before(g, 8);
            let n = zeros_at(g, at);
            &&& 0xFFFF_0000_0000 <= ip < 0x1_0000_0000_0000 ==> v6_text(ip) == "::ffff:"@ + v4_text(
                (ip - 0xFFFF_0000_0000) as u32,
            )
            &&& !(0xFFFF_0000_0000 <= ip < 0x1_0000_0000_0000) && n <= 1 ==> v6_text(ip)
                == groups_text(g)
            &&& !(0xFFFF_0000_0000 <= ip < 0x1_0000_0000_0000) && n >= 2 ==> v6_text(ip)
                == groups_text(g.subrange(0, at)) + "::"@ + groups_text(g.subrange(at + n, 8))
        }),
{
    let g = v6_groups(ip);
    let at = longest_zeros_before(g, 8);
    let n = zeros_at(g, at);
    first_longest_run_is_left_out(g, 8);
    zeros_are_counted(g, at);
    assert(g.subrange(0, at) =~= g.take(at));
    assert(g.subrange(at + n, 8) =~= g.skip(at + n));
}

} // verus!
