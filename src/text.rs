//! Textual forms of IP addresses, as ASCII bytes.

use vstd::prelude::*;

use crate::net::IpAddr;

verus! {

/// Lower-case hexadecimal or decimal digit for `d`.
pub open spec fn digit_char(d: nat) -> u8 {
    if d < 10 {
        (48 + d) as u8
    } else {
        (87 + d) as u8
    }
}

/// The digits of `n` in base `base`, without leading zeros.
pub open spec fn digits(n: nat, base: nat) -> Seq<u8>
    recommends
        base >= 2,
    decreases n
    via digits_decreases
{
    if base < 2 || n < base {
        seq![digit_char(n)]
    } else {
        digits(n / base, base).push(digit_char(n % base))
    }
}

#[via_fn]
proof fn digits_decreases(n: nat, base: nat) {
    if !(base < 2 || n < base) {
        assert(n / base < n) by (nonlinear_arith)
            requires
                base >= 2,
                n >= base,
        ;
    }
}

/// Dotted-decimal text of an IPv4 address.
pub open spec fn ipv4_text(x: u32) -> Seq<u8> {
    digits((x / 0x100_0000) as nat, 10) + seq![46u8] + digits((x / 0x1_0000 % 256) as nat, 10) + seq![
        46u8,
    ] + digits((x / 0x100 % 256) as nat, 10) + seq![46u8] + digits((x % 256) as nat, 10)
}

/// The eight 16-bit groups of an IPv6 address, most significant first.
pub open spec fn groups(x: u128) -> Seq<u16> {
    Seq::new(8, |i: int| group(x, i))
}

/// The `i`-th 16-bit group of an IPv6 address, most significant first.
pub open spec fn group(x: u128, i: int) -> u16 {
    ((x >> ((112 - 16 * i) as u128)) & 0xffff) as u16
}

/// Groups joined by colons, each in lower-case hex without leading zeros.
pub open spec fn hex_groups(g: Seq<u16>) -> Seq<u8>
    decreases g.len(),
{
    if g.len() == 0 {
        Seq::empty()
    } else if g.len() == 1 {
        digits(g[0] as nat, 16)
    } else {
        hex_groups(g.drop_last()) + seq![58u8] + digits(g.last() as nat, 16)
    }
}

/// Length of the run of zero groups that starts at `i`.
pub open spec fn zero_run(g: Seq<u16>, i: int) -> nat
    decreases g.len() - i,
{
    if i < 0 || i >= g.len() || g[i] != 0 {
        0
    } else {
        1 + zero_run(g, i + 1)
    }
}

/// The run of zero groups that the text compresses to `::`: the first of
/// the longest runs, if it has two groups or more.
pub open spec fn compressed_run(g: Seq<u16>, start: int) -> bool {
    &&& 0 <= start < g.len()
    &&& zero_run(g, start) >= 2
    &&& forall|j: int| 0 <= j < g.len() ==> zero_run(g, j) <= zero_run(g, start)
    &&& forall|j: int| 0 <= j < start ==> zero_run(g, j) < zero_run(g, start)
}

/// Text of an IPv6 address: an IPv4-mapped address as `::ffff:` and the
/// dotted IPv4 text; otherwise hex groups, with the first longest run of two
/// or more zero groups written `::`.
pub open spec fn ipv6_text(x: u128) -> Seq<u8> {
    let g = groups(x);
    if x >> 32u128 == 0xffff {
        seq![58u8, 58u8, 102u8, 102u8, 102u8, 102u8, 58u8] + ipv4_text((x & 0xffff_ffff) as u32)
    } else if exists|s: int| compressed_run(g, s) {
        let s = choose|s: int| compressed_run(g, s);
        hex_groups(g.subrange(0, s)) + seq![58u8, 58u8] + hex_groups(
            g.subrange(s + zero_run(g, s), 8),
        )
    } else {
        hex_groups(g)
    }
}

/// Text of an IP address.
pub open spec fn ip_text(ip: IpAddr) -> Seq<u8> {
    match ip {
        IpAddr::V4(x) => ipv4_text(x),
        IpAddr::V6(x) => ipv6_text(x),
    }
}

/// Appends the digits of `n` in base `base`.
fn push_digits(out: &mut Vec<u8>, n: u32, base: u32)
    requires
        2 <= base <= 16,
    ensures
        final(out)@ == old(out)@ + digits(n as nat, base as nat),
    decreases n,
{
    if n < base {
        out.push(if n < 10 { 48 + n as u8 } else { 87 + n as u8 });
    } else {
        assert(n / base < n) by (nonlinear_arith)
            requires
                base >= 2,
                n >= base,
        ;
        push_digits(out, n / base, base);
        let d = n % base;
        out.push(if d < 10 { 48 + d as u8 } else { 87 + d as u8 });
    }
    assert(final(out)@ =~= old(out)@ + digits(n as nat, base as nat));
}

fn push_ipv4(out: &mut Vec<u8>, x: u32)
    ensures
        final(out)@ == old(out)@ + ipv4_text(x),
{
    push_digits(out, x / 0x100_0000, 10);
    out.push(46);
    push_digits(out, x / 0x1_0000 % 256, 10);
    out.push(46);
    push_digits(out, x / 0x100 % 256, 10);
    out.push(46);
    push_digits(out, x % 256, 10);
    assert(final(out)@ =~= old(out)@ + ipv4_text(x));
}

/// Appends the groups `g[from..to]`, joined by colons.
fn push_hex_groups(out: &mut Vec<u8>, g: &[u16], from: usize, to: usize)
    requires
        from <= to <= g@.len(),
    ensures
        final(out)@ == old(out)@ + hex_groups(g@.subrange(from as int, to as int)),
{
    let mut i = from;
    assert(hex_groups(g@.subrange(from as int, from as int)) =~= Seq::<u8>::empty());
    assert(out@ =~= old(out)@ + hex_groups(g@.subrange(from as int, from as int)));
    while i < to
        invariant
            from <= i <= to <= g@.len(),
            out@ == old(out)@ + hex_groups(g@.subrange(from as int, i as int)),
        decreases to - i,
    {
        let ghost before = g@.subrange(from as int, i as int);
        let ghost after = g@.subrange(from as int, i + 1);
        assert(after.drop_last() =~= before);
        if i > from {
            out.push(58);
        }
        push_digits(out, g[i] as u32, 16);
        i = i + 1;
        assert(out@ =~= old(out)@ + hex_groups(after));
    }
}

proof fn lemma_compressed_run_unique(g: Seq<u16>, s1: int, s2: int)
    requires
        compressed_run(g, s1),
        compressed_run(g, s2),
    ensures
        s1 == s2,
{
}

fn push_ipv6(out: &mut Vec<u8>, x: u128)
    ensures
        final(out)@ == old(out)@ + ipv6_text(x),
{
    if x >> 32u128 == 0xffff {
        out.push(58);
        out.push(58);
        out.push(102);
        out.push(102);
        out.push(102);
        out.push(102);
        out.push(58);
        push_ipv4(out, (x & 0xffff_ffff) as u32);
        assert(final(out)@ =~= old(out)@ + ipv6_text(x));
        return;
    }
    let mut g: Vec<u16> = Vec::new();
    let mut i: usize = 0;
    while i < 8
        invariant
            i <= 8,
            g@ == groups(x).subrange(0, i as int),
        decreases 8 - i,
    {
        g.push(((x >> ((112 - 16 * i) as u128)) & 0xffff) as u16);
        i = i + 1;
        assert(g@ =~= groups(x).subrange(0, i as int));
    }
    assert(g@ =~= groups(x));
    let ghost gs = groups(x);
    // runs[j] is the length of the run of zero groups from j
    let mut runs: Vec<usize> = Vec::new();
    let mut k: usize = 0;
    while k < 9
        invariant
            k <= 9,
            runs@.len() == k,
            forall|j: int| 0 <= j < k ==> runs@[j] == 0,
        decreases 9 - k,
    {
        runs.push(0);
        k = k + 1;
    }
    let mut j: usize = 8;
    while j > 0
        invariant
            j <= 8,
            runs@.len() == 9,
            g@ == gs,
            gs.len() == 8,
            runs@[8] == 0,
            forall|m: int| j <= m < 9 ==> runs@[m] == zero_run(gs, m),
            forall|m: int| j <= m < 9 ==> runs@[m] <= 8 - m,
        decreases j,
    {
        j = j - 1;
        assert(zero_run(gs, 8) == 0);
        assert(zero_run(gs, j as int) == if gs[j as int] != 0 { 0 } else { 1 + zero_run(gs, j + 1) });
        let r = if g[j] == 0 { runs[j + 1] + 1 } else { 0 };
        runs.set(j, r);
    }
    let mut start: usize = 0;
    let mut best: usize = 0;
    let mut m: usize = 0;
    while m < 8
        invariant
            m <= 8,
            runs@.len() == 9,
            gs.len() == 8,
            start < 8,
            forall|q: int| 0 <= q < 8 ==> runs@[q] == zero_run(gs, q),
            forall|q: int| 0 <= q < m ==> runs@[q] <= best,
            best > 0 ==> runs@[start as int] == best && forall|q: int| 0 <= q < start ==> runs@[q] < best,
            best > 0 ==> start < m,
        decreases 8 - m,
    {
        if runs[m] > best {
            best = runs[m];
            start = m;
        }
        m = m + 1;
    }
    if best >= 2 {
        assert(compressed_run(gs, start as int));
        assert(exists|s: int| compressed_run(gs, s));
        let ghost c = choose|s: int| compressed_run(gs, s);
        proof {
            lemma_compressed_run_unique(gs, c, start as int);
        }
        push_hex_groups(out, g.as_slice(), 0, start);
        out.push(58);
        out.push(58);
        push_hex_groups(out, g.as_slice(), start + best, 8);
        assert(final(out)@ =~= old(out)@ + ipv6_text(x));
    } else {
        assert forall|s: int| !compressed_run(gs, s) by {
            if 0 <= s < 8 {
                assert(runs@[s] == zero_run(gs, s));
            }
        }
        push_hex_groups(out, g.as_slice(), 0, 8);
        assert(g@.subrange(0, 8) =~= gs);
        assert(final(out)@ =~= old(out)@ + ipv6_text(x));
    }
}

/// Appends the text of `ip`.
pub fn push_ip_text(out: &mut Vec<u8>, ip: IpAddr)
    ensures
        final(out)@ == old(out)@ + ip_text(ip),
{
    match ip {
        IpAddr::V4(x) => push_ipv4(out, x),
        IpAddr::V6(x) => push_ipv6(out, x),
    }
}

} // verus!
